//! The byte side of a channel: what is sent is framed into an outgoing
//! buffer, what is read off the stream is fed into an incoming buffer and
//! taken back out frame by frame. The stream itself is driven by the caller.
use vstd::prelude::*;

use crate::error::{Error, ErrorKindSer};
use crate::framing::{
    frame, frame_message, frame_reservation_failed, lemma_frame_roundtrip, read_frame,
};
use crate::wire::{be64_value, lemma_be64};

verus! {

/// The next message in the bytes `buf` read off a stream, and what follows
/// it; nothing while its frame is not complete.
pub open spec fn next_frame(buf: Seq<u8>) -> Option<(Seq<u8>, Seq<u8>)> {
    if buf.len() >= 8 && buf.len() - 8 >= be64_value(buf) {
        let n = 8 + be64_value(buf);
        Some((buf.subrange(8, n as int), buf.skip(n as int)))
    } else {
        None
    }
}

/// A channel that carries raw messages both ways, unformatted: `send_chan`
/// holds the frames sent and not yet written to the stream, `receive_chan`
/// the bytes read from the stream and not yet taken as messages.
pub struct UnformattedRawBidirectionalChannel {
    pub send_chan: Vec<u8>,
    pub receive_chan: Vec<u8>,
}

impl UnformattedRawBidirectionalChannel {
    /// A channel with nothing sent and nothing read.
    pub fn new() -> (c: UnformattedRawBidirectionalChannel)
        ensures
            c.send_chan@ == Seq::<u8>::empty(),
            c.receive_chan@ == Seq::<u8>::empty(),
    {
        UnformattedRawBidirectionalChannel { send_chan: Vec::new(), receive_chan: Vec::new() }
    }

    /// Sends a message: its frame goes after what was sent before. Gives the
    /// length of the message.
    pub fn send(&mut self, payload: &[u8]) -> (n: usize)
        requires
            old(self).send_chan@.len() + 8 + payload@.len() <= usize::MAX,
        ensures
            final(self).send_chan@ == old(self).send_chan@ + frame(payload@),
            final(self).receive_chan@ == old(self).receive_chan@,
            n == payload@.len(),
    {
        append_frame(&mut self.send_chan, payload)
    }

    /// Hands out the bytes to write to the stream, in the order they were
    /// sent; nothing is left to write afterwards.
    pub fn take_sent(&mut self) -> (out: Vec<u8>)
        ensures
            out@ == old(self).send_chan@,
            final(self).send_chan@ == Seq::<u8>::empty(),
            final(self).receive_chan@ == old(self).receive_chan@,
    {
        let mut out: Vec<u8> = Vec::new();
        core::mem::swap(&mut out, &mut self.send_chan);
        out
    }

    /// Takes in bytes read off the stream, after those read before.
    pub fn feed(&mut self, bytes: &[u8])
        requires
            old(self).receive_chan@.len() + bytes@.len() <= usize::MAX,
        ensures
            final(self).receive_chan@ == old(self).receive_chan@ + bytes@,
            final(self).send_chan@ == old(self).send_chan@,
    {
        let n = bytes.len();
        let mut i: usize = 0;
        let ghost before = self.receive_chan@;
        while i < n
            invariant
                n == bytes@.len(),
                i <= n,
                self.receive_chan@ == before + bytes@.take(i as int),
                self.send_chan@ == old(self).send_chan@,
                before == old(self).receive_chan@,
                before.len() + n <= usize::MAX,
            decreases n - i,
        {
            self.receive_chan.push(bytes[i]);
            assert(bytes@.take(i + 1) =~= bytes@.take(i as int).push(bytes@[i as int]));
            i = i + 1;
        }
        assert(bytes@.take(n as int) =~= bytes@);
    }

    /// Receives the next message from the bytes read so far. While its frame
    /// is not complete the stream has not delivered it: `UnexpectedEof`, and
    /// nothing is taken. The buffer for the message is allocated first, so a
    /// size that cannot be allocated fails with `OutOfMemory`.
    pub fn receive(&mut self) -> (r: core::result::Result<Vec<u8>, Error>)
        ensures
            final(self).send_chan@ == old(self).send_chan@,
            next_frame(old(self).receive_chan@) is None ==> r is Err,
            r matches Ok(p) ==> next_frame(old(self).receive_chan@) == Some(
                (p@, final(self).receive_chan@),
            ),
            r is Err ==> final(self).receive_chan@ == old(self).receive_chan@,
            r matches Err(e) ==> (e.kind == ErrorKindSer::UnexpectedEof && next_frame(
                old(self).receive_chan@,
            ) is None) || e.kind == ErrorKindSer::OutOfMemory,
            r matches Err(e) ==> (e.kind == ErrorKindSer::OutOfMemory ==> frame_reservation_failed(
                old(self).receive_chan@,
                e.message@,
            )),
            old(self).receive_chan@.len() >= 8 && be64_value(old(self).receive_chan@) == 0 ==> (r matches Ok(
                p,
            ) && p@.len() == 0),
    {
        take_frame(&mut self.receive_chan)
    }
}

/// A channel like `UnformattedRawBidirectionalChannel` over buffers that it
/// borrows: frames sent go after `send_chan`, messages are taken from the
/// front of `receive_chan`.
pub struct RefUnformattedRawBidirectionalChannel<'a> {
    pub send_chan: &'a mut Vec<u8>,
    pub receive_chan: &'a mut Vec<u8>,
}

impl<'a> RefUnformattedRawBidirectionalChannel<'a> {
    /// Sends a message: its frame goes after what was sent before. Gives the
    /// length of the message.
    pub fn send(&mut self, payload: &[u8]) -> (n: usize)
        requires
            (*old(self).send_chan)@.len() + 8 + payload@.len() <= usize::MAX,
        ensures
            (*final(self).send_chan)@ == (*old(self).send_chan)@ + frame(payload@),
            (*final(self).receive_chan)@ == (*old(self).receive_chan)@,
            n == payload@.len(),
    {
        append_frame(&mut *self.send_chan, payload)
    }

    /// Receives the next message from the bytes read so far, as
    /// `UnformattedRawBidirectionalChannel::receive` does.
    pub fn receive(&mut self) -> (r: core::result::Result<Vec<u8>, Error>)
        ensures
            (*final(self).send_chan)@ == (*old(self).send_chan)@,
            next_frame((*old(self).receive_chan)@) is None ==> r is Err,
            r matches Ok(p) ==> next_frame((*old(self).receive_chan)@) == Some(
                (p@, (*final(self).receive_chan)@),
            ),
            r is Err ==> (*final(self).receive_chan)@ == (*old(self).receive_chan)@,
            r matches Err(e) ==> (e.kind == ErrorKindSer::UnexpectedEof && next_frame(
                (*old(self).receive_chan)@,
            ) is None) || e.kind == ErrorKindSer::OutOfMemory,
            r matches Err(e) ==> (e.kind == ErrorKindSer::OutOfMemory ==> frame_reservation_failed(
                (*old(self).receive_chan)@,
                e.message@,
            )),
            (*old(self).receive_chan)@.len() >= 8 && be64_value((*old(self).receive_chan)@) == 0 ==> (
            r matches Ok(p) && p@.len() == 0),
    {
        take_frame(&mut *self.receive_chan)
    }
}

/// Appends the frame of `payload` to `out`; gives the length of the message.
fn append_frame(out: &mut Vec<u8>, payload: &[u8]) -> (n: usize)
    requires
        old(out)@.len() + 8 + payload@.len() <= usize::MAX,
    ensures
        final(out)@ == old(out)@ + frame(payload@),
        n == payload@.len(),
{
    let framed = frame_message(payload);
    let m = framed.len();
    let mut i: usize = 0;
    let ghost before = out@;
    while i < m
        invariant
            m == framed@.len(),
            i <= m,
            out@ == before + framed@.take(i as int),
            before == old(out)@,
            before.len() + m <= usize::MAX,
        decreases m - i,
    {
        out.push(framed[i]);
        assert(framed@.take(i + 1) =~= framed@.take(i as int).push(framed@[i as int]));
        i = i + 1;
    }
    assert(framed@.take(m as int) =~= framed@);
    payload.len()
}

/// Takes the next message from the front of `inbuf`; on failure `inbuf`
/// stays as it was.
fn take_frame(inbuf: &mut Vec<u8>) -> (r: core::result::Result<Vec<u8>, Error>)
    ensures
        next_frame(old(inbuf)@) is None ==> r is Err,
        r matches Ok(p) ==> next_frame(old(inbuf)@) == Some((p@, final(inbuf)@)),
        r is Err ==> final(inbuf)@ == old(inbuf)@,
        r matches Err(e) ==> (e.kind == ErrorKindSer::UnexpectedEof && next_frame(old(inbuf)@)
            is None) || e.kind == ErrorKindSer::OutOfMemory,
        r matches Err(e) ==> (e.kind == ErrorKindSer::OutOfMemory ==> frame_reservation_failed(
            old(inbuf)@,
            e.message@,
        )),
        old(inbuf)@.len() >= 8 && be64_value(old(inbuf)@) == 0 ==> (r matches Ok(p) && p@.len() == 0),
{
    let got = read_frame(inbuf.as_slice());
    match got {
        Err(e) => Err(e),
        Ok((payload, n)) => {
            let total = inbuf.len();
            let mut rest: Vec<u8> = Vec::new();
            let mut i: usize = n;
            let ghost buf = inbuf@;
            while i < total
                invariant
                    buf == inbuf@,
                    total == buf.len(),
                    n <= i <= total,
                    rest@ == buf.subrange(n as int, i as int),
                decreases total - i,
            {
                rest.push(inbuf[i]);
                assert(buf.subrange(n as int, i + 1) =~= buf.subrange(n as int, i as int).push(
                    buf[i as int],
                ));
                i = i + 1;
            }
            assert(rest@ =~= buf.skip(n as int));
            *inbuf = rest;
            Ok(payload)
        },
    }
}

/// The message that a complete frame at the front of `x` holds.
proof fn lemma_next_frame_of(x: Seq<u8>, n: nat)
    requires
        x.len() >= 8,
        be64_value(x) == n,
        x.len() - 8 >= n,
    ensures
        next_frame(x) == Some((x.subrange(8, 8 + n as int), x.skip(8 + n as int))),
{
}

/// What one side sends, written to the stream and read by the other side,
/// is received there as the same message, followed by whatever came after.
pub proof fn lemma_receive_after_send(payload: Seq<u8>, rest: Seq<u8>)
    requires
        payload.len() <= u64::MAX,
    ensures
        next_frame(frame(payload) + rest) == Some((payload, rest)),
{
    let n = payload.len();
    let x = frame(payload) + rest;
    lemma_frame_roundtrip(payload, rest);
    lemma_be64(n as u64, Seq::<u8>::empty());
    assert(frame(payload).len() == 8 + n);
    lemma_next_frame_of(x, n);
    assert(x.skip(8 + n as int) =~= rest);
}

/// What a websocket message is, as a channel reads it.
#[derive(Clone, Debug)]
pub enum WsMessage {
    Binary(Vec<u8>),
    Text(String),
    Ping(Vec<u8>),
    Pong(Vec<u8>),
    Close,
}

/// The payload of a websocket message read by a channel: the bytes of a
/// binary message; any other message is invalid data.
pub fn wss_payload(msg: WsMessage) -> (r: core::result::Result<Vec<u8>, Error>)
    ensures
        msg matches WsMessage::Binary(v) ==> (r matches Ok(p) && p@ == v@),
        !(msg is Binary) ==> (r matches Err(e) && e.kind == ErrorKindSer::InvalidData),
        msg is Text ==> (r matches Err(e) && e.message@ == "expected binary message, found text message"@),
        msg is Ping ==> (r matches Err(e) && e.message@ == "expected binary message, found ping message"@),
        msg is Pong ==> (r matches Err(e) && e.message@ == "expected binary message, found pong message"@),
        msg is Close ==> (r matches Err(e) && e.message@ == "expected binary message, found close message"@),
{
    match msg {
        WsMessage::Binary(v) => Ok(v),
        WsMessage::Text(_) => Err(
            Error::new(ErrorKindSer::InvalidData, "expected binary message, found text message"),
        ),
        WsMessage::Ping(_) => Err(
            Error::new(ErrorKindSer::InvalidData, "expected binary message, found ping message"),
        ),
        WsMessage::Pong(_) => Err(
            Error::new(ErrorKindSer::InvalidData, "expected binary message, found pong message"),
        ),
        WsMessage::Close => Err(
            Error::new(ErrorKindSer::InvalidData, "expected binary message, found close message"),
        ),
    }
}

} // verus!
