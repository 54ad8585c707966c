use canary::cipher::NoiseCipher;
use canary::handshake::{decide_role, HandshakeAction, HandshakeEvent, NoiseHandshake, Role};

#[test]
fn lower_number_initiates() {
    assert_eq!(decide_role(3, 9), Some(Role::Initiator));
    assert_eq!(decide_role(9, 3), Some(Role::Responder));
    assert_eq!(decide_role(4, 4), None);
    assert_eq!(decide_role(0, u64::MAX), Some(Role::Initiator));
}

fn number(a: &HandshakeAction) -> u64 {
    match a {
        HandshakeAction::SendNumber(n) => *n,
        _ => panic!("expected a number"),
    }
}

fn key(a: HandshakeAction) -> Vec<u8> {
    match a {
        HandshakeAction::SendKey(k) => k,
        _ => panic!("expected a key"),
    }
}

/// Runs two handshakes against each other, moving what each sends to the
/// other; gives the initiator's cipher and the responder's.
fn handshake_pair() -> (NoiseCipher, NoiseCipher) {
    let (mut a, mut act_a) = NoiseHandshake::start_default().unwrap();
    let (mut b, mut act_b) = NoiseHandshake::start_default().unwrap();
    // negotiate until the numbers differ
    loop {
        let (na, nb) = (number(&act_a), number(&act_b));
        let (next_a, x) = a.step(HandshakeEvent::PeerNumber(nb)).unwrap();
        let (next_b, y) = b.step(HandshakeEvent::PeerNumber(na)).unwrap();
        a = next_a.unwrap();
        b = next_b.unwrap();
        act_a = x;
        act_b = y;
        if na != nb {
            break;
        }
    }
    let (ka, kb) = (key(act_a), key(act_b));
    let (a, x) = a.step(HandshakeEvent::PeerKey(kb)).unwrap();
    let (b, y) = b.step(HandshakeEvent::PeerKey(ka)).unwrap();
    let (init, init_act, resp, resp_act) = match (&x, &y) {
        (HandshakeAction::SendMessage(_), HandshakeAction::Receive) => (a.unwrap(), x, b.unwrap(), y),
        (HandshakeAction::Receive, HandshakeAction::SendMessage(_)) => (b.unwrap(), y, a.unwrap(), x),
        _ => panic!("one side writes first, the other waits"),
    };
    assert!(matches!(resp_act, HandshakeAction::Receive));
    let first = match init_act {
        HandshakeAction::SendMessage(m) => m,
        _ => unreachable!(),
    };
    assert!(matches!(init, NoiseHandshake::AwaitingResponse { .. }));
    assert!(matches!(resp, NoiseHandshake::AwaitingInitiation { .. }));
    let (resp, answer) = resp.step(HandshakeEvent::PeerMessage(first)).unwrap();
    let answer = match answer {
        HandshakeAction::SendMessage(m) => m,
        _ => panic!("the responder answers"),
    };
    let (done, fin) = init.step(HandshakeEvent::PeerMessage(answer)).unwrap();
    assert!(done.is_none());
    let ci = match fin {
        HandshakeAction::Finish(c) => c,
        _ => panic!("the initiator is done"),
    };
    let (done, fin) = resp.unwrap().step(HandshakeEvent::MessageSent).unwrap();
    assert!(done.is_none());
    let cr = match fin {
        HandshakeAction::Finish(c) => c,
        _ => panic!("the responder is done"),
    };
    (ci, cr)
}

#[test]
fn handshake_secures_both_sides() {
    let (mut ci, mut cr) = handshake_pair();
    let sealed = ci.encrypt_packets(b"hello").unwrap();
    assert_eq!(sealed.len(), 5 + 16);
    assert_ne!(&sealed[..5], b"hello");
    let opened = cr.decrypt_packets(&sealed).unwrap();
    assert_eq!(opened, b"hello".to_vec());
    // and the other way round
    let back = cr.encrypt_packets(b"world").unwrap();
    assert_eq!(ci.decrypt_packets(&back).unwrap(), b"world".to_vec());
}

#[test]
fn long_messages_are_cut_into_packets() {
    let (mut ci, mut cr) = handshake_pair();
    let msg: Vec<u8> = (0..70000u32).map(|i| (i % 251) as u8).collect();
    let sealed = ci.encrypt_packets(&msg).unwrap();
    assert_eq!(sealed.len(), 70000 + 2 * 16);
    let opened = cr.decrypt_packets(&sealed).unwrap();
    assert_eq!(opened, msg);
}

#[test]
fn empty_message_is_empty() {
    let (mut ci, mut cr) = handshake_pair();
    let sealed = ci.encrypt_packets(&[]).unwrap();
    assert!(sealed.is_empty());
    assert!(cr.decrypt_packets(&sealed).unwrap().is_empty());
}

#[test]
fn tampered_packet_is_refused() {
    let (mut ci, mut cr) = handshake_pair();
    let mut sealed = ci.encrypt_packets(b"secret").unwrap();
    sealed[0] ^= 1;
    assert_eq!(cr.decrypt_packets(&sealed).unwrap_err().kind, canary::error::ErrorKindSer::Other);
}

#[test]
fn packet_shorter_than_a_tag_is_refused() {
    let (_, mut cr) = handshake_pair();
    assert!(cr.decrypt_packets(&[1, 2, 3]).is_err());
}

#[test]
fn single_packet_sealing() {
    let (mut ci, mut cr) = handshake_pair();
    let p = ci.encrypt_packet(b"abcdef", 2, 5).unwrap();
    assert_eq!(p.len(), 3 + 16);
    let opened = cr.decrypt_packets(&p).unwrap();
    assert_eq!(opened, b"cde".to_vec());
}

#[test]
fn an_overlong_peer_key_fails_the_handshake() {
    let (mut a, mut act_a) = NoiseHandshake::start_default().unwrap();
    loop {
        let na = number(&act_a);
        let peer = if na == 0 { 1 } else { na - 1 };
        let (next, x) = a.step(HandshakeEvent::PeerNumber(peer)).unwrap();
        a = next.unwrap();
        act_a = x;
        if matches!(a, NoiseHandshake::ExchangingKeys { .. }) {
            break;
        }
    }
    match a.step(HandshakeEvent::PeerKey(vec![7u8; 57])) {
        Err(e) => assert_eq!(e.kind, canary::error::ErrorKindSer::Other),
        Ok(_) => panic!("an overlong key is refused"),
    }
}
