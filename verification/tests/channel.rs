use canary::channel::{wss_payload, RefUnformattedRawBidirectionalChannel, UnformattedRawBidirectionalChannel, WsMessage};
use canary::error::ErrorKindSer;

#[test]
fn sent_messages_are_framed_in_order() {
    let mut c = UnformattedRawBidirectionalChannel::new();
    assert_eq!(c.send(b"ab"), 2);
    assert_eq!(c.send(b""), 0);
    assert_eq!(
        c.take_sent(),
        vec![0, 0, 0, 0, 0, 0, 0, 2, b'a', b'b', 0, 0, 0, 0, 0, 0, 0, 0]
    );
    assert!(c.send_chan.is_empty());
}

#[test]
fn what_one_side_sends_the_other_receives() {
    let mut a = UnformattedRawBidirectionalChannel::new();
    let mut b = UnformattedRawBidirectionalChannel::new();
    a.send(b"hello");
    a.send(b"world!");
    let bytes = a.take_sent();
    // the stream delivers the bytes in pieces
    b.feed(&bytes[..3]);
    assert_eq!(b.receive().unwrap_err().kind, ErrorKindSer::UnexpectedEof);
    b.feed(&bytes[3..15]);
    assert_eq!(b.receive().unwrap(), b"hello".to_vec());
    assert_eq!(b.receive().unwrap_err().kind, ErrorKindSer::UnexpectedEof);
    b.feed(&bytes[15..]);
    assert_eq!(b.receive().unwrap(), b"world!".to_vec());
    assert!(b.receive_chan.is_empty());
}

#[test]
fn an_incomplete_frame_is_kept() {
    let mut c = UnformattedRawBidirectionalChannel::new();
    c.feed(&[0, 0, 0, 0, 0, 0, 0, 4, 1]);
    assert!(c.receive().is_err());
    assert_eq!(c.receive_chan, vec![0, 0, 0, 0, 0, 0, 0, 4, 1]);
}

#[test]
fn only_binary_websocket_messages_carry_data() {
    assert_eq!(wss_payload(WsMessage::Binary(vec![1, 2])).unwrap(), vec![1, 2]);
    for m in [
        WsMessage::Text("hi".to_string()),
        WsMessage::Ping(vec![]),
        WsMessage::Pong(vec![1]),
        WsMessage::Close,
    ] {
        assert_eq!(wss_payload(m).unwrap_err().kind, ErrorKindSer::InvalidData);
    }
}

#[test]
fn borrowed_channel_frames_into_its_buffers() {
    let mut out = Vec::new();
    let mut inbox = Vec::new();
    {
        let mut c = RefUnformattedRawBidirectionalChannel { send_chan: &mut out, receive_chan: &mut inbox };
        assert_eq!(c.send(b"hi"), 2);
    }
    assert_eq!(out, vec![0, 0, 0, 0, 0, 0, 0, 2, b'h', b'i']);
    let mut other = Vec::new();
    let mut c = RefUnformattedRawBidirectionalChannel { send_chan: &mut other, receive_chan: &mut out };
    assert_eq!(c.receive().unwrap(), b"hi".to_vec());
    assert!(c.receive_chan.is_empty());
}

#[test]
fn websocket_errors_name_the_message() {
    assert_eq!(
        wss_payload(WsMessage::Text("x".to_string())).unwrap_err().message,
        "expected binary message, found text message"
    );
    assert_eq!(wss_payload(WsMessage::Close).unwrap_err().message, "expected binary message, found close message");
}
