//! Framing of messages on a byte stream: a big-endian u64 length, then the
//! message bytes.
use vstd::prelude::*;

use crate::error::{Error, ErrorKindSer};
use crate::wire::{be64, be64_value, lemma_seq_roundtrip, Wire};

verus! {

/// The decimal digit `d`.
pub open spec fn digit_char(d: nat) -> char {
    (d + 48) as char
}

/// The decimal text of `n`, as `Display` writes an integer.
pub open spec fn decimal(n: nat) -> Seq<char>
    decreases n,
{
    if n < 10 {
        seq![digit_char(n)]
    } else {
        decimal(n / 10).push(digit_char(n % 10))
    }
}

/// What the message of a failed reservation of `size` items starts with.
pub open spec fn reserve_failure_prefix(size: nat) -> Seq<char> {
    "failed to reserve "@ + decimal(size) + " bytes, error: "@
}

/// Reserves room for `additional` more items. Calls `Vec::try_reserve`,
/// which the standard library documents as failing when the new capacity
/// would pass `isize::MAX` bytes (or when the allocator fails) and as leaving
/// the items as they are.
#[verifier::external_body]
fn reserve<T>(v: &mut Vec<T>, additional: usize) -> (r: core::result::Result<
    (),
    std::collections::TryReserveError,
>)
    ensures
        final(v)@ == old(v)@,
        (old(v)@.len() + additional) * vstd::layout::size_of::<T>() > isize::MAX ==> r is Err,
{
    v.try_reserve(additional)
}

/// The `Debug` text of a failed reservation. Calls `format!` with `{:?}`;
/// what it writes is not stated.
#[verifier::external_body]
fn reserve_error_text(e: &std::collections::TryReserveError) -> String {
    format!("{:?}", e)
}

/// The text of a decimal digit.
fn digit_str(d: usize) -> (r: &'static str)
    requires
        d < 10,
    ensures
        r@ == seq![digit_char(d as nat)],
{
    match d {
        0 => {
            proof {
                reveal_strlit("0");
            }
            "0"
        },
        1 => {
            proof {
                reveal_strlit("1");
            }
            "1"
        },
        2 => {
            proof {
                reveal_strlit("2");
            }
            "2"
        },
        3 => {
            proof {
                reveal_strlit("3");
            }
            "3"
        },
        4 => {
            proof {
                reveal_strlit("4");
            }
            "4"
        },
        5 => {
            proof {
                reveal_strlit("5");
            }
            "5"
        },
        6 => {
            proof {
                reveal_strlit("6");
            }
            "6"
        },
        7 => {
            proof {
                reveal_strlit("7");
            }
            "7"
        },
        8 => {
            proof {
                reveal_strlit("8");
            }
            "8"
        },
        _ => {
            proof {
                reveal_strlit("9");
            }
            "9"
        },
    }
}

/// The decimal text of `n`.
fn decimal_text(n: usize) -> (r: String)
    ensures
        r@ == decimal(n as nat),
    decreases n,
{
    if n < 10 {
        digit_str(n).to_string()
    } else {
        let mut t = decimal_text(n / 10);
        t.append(digit_str(n % 10));
        t
    }
}

/// The message of a failed reservation of `size` items.
fn reserve_failure(size: usize, e: &std::collections::TryReserveError) -> (r: String)
    ensures
        r@.len() >= reserve_failure_prefix(size as nat).len(),
        r@.take(reserve_failure_prefix(size as nat).len() as int) == reserve_failure_prefix(
            size as nat,
        ),
{
    let mut m = "failed to reserve ".to_string();
    let d = decimal_text(size);
    m.append(d.as_str());
    m.append(" bytes, error: ");
    let detail = reserve_error_text(e);
    let ghost head = m@;
    m.append(detail.as_str());
    assert(head == reserve_failure_prefix(size as nat));
    assert(m@.take(head.len() as int) =~= head);
    m
}

/// Allocates a buffer of `size` default values, failing with an
/// out-of-memory error, instead of aborting, when the memory cannot be had.
/// This keeps a peer that announces a huge length from crashing the program.
/// Nothing needs to be reserved for no items; more than `isize::MAX` bytes
/// can never be reserved.
pub fn try_vec<T: Default + Clone>(size: usize) -> (r: core::result::Result<Vec<T>, Error>)
    ensures
        size == 0 ==> (r matches Ok(v) && v@.len() == 0),
        size * vstd::layout::size_of::<T>() > isize::MAX ==> r is Err,
        r matches Ok(v) ==> v@.len() == size && forall|i: int|
            0 <= i < size ==> call_ensures(T::default, (), #[trigger] v@[i]),
        r matches Err(e) ==> e.kind == ErrorKindSer::OutOfMemory && e.from_refused_reservation()
            && e.message@.len()
            >= reserve_failure_prefix(size as nat).len() && e.message@.take(
            reserve_failure_prefix(size as nat).len() as int,
        ) == reserve_failure_prefix(size as nat),
{
    let mut buf: Vec<T> = Vec::new();
    if size == 0 {
        return Ok(buf);
    }
    match reserve(&mut buf, size) {
        Ok(()) => {},
        Err(e) => {
            let message = reserve_failure(size, &e);
            return Err(Error::refused_reservation(message, e));
        },
    }
    let mut i: usize = 0;
    while i < size
        invariant
            i <= size,
            buf@.len() == i,
            forall|j: int| 0 <= j < i ==> call_ensures(T::default, (), #[trigger] buf@[j]),
        decreases size - i,
    {
        let d = T::default();
        buf.push(d);
        i = i + 1;
    }
    Ok(buf)
}

/// The frame of a message: its length as a big-endian u64, then its bytes.
pub open spec fn frame(payload: Seq<u8>) -> Seq<u8> {
    be64(payload.len() as u64) + payload
}

/// Builds the frame that carries `payload` on a stream.
pub fn frame_message(payload: &[u8]) -> (out: Vec<u8>)
    ensures
        out@ == frame(payload@),
{
    let mut out: Vec<u8> = Vec::new();
    let len = payload.len() as u64;
    len.send(&mut out);
    let n = payload.len();
    let mut i: usize = 0;
    while i < n
        invariant
            n == payload@.len(),
            i <= n,
            out@ == be64(n as u64) + payload@.take(i as int),
        decreases n - i,
    {
        out.push(payload[i]);
        assert(payload@.take(i + 1) =~= payload@.take(i as int).push(payload@[i as int]));
        i = i + 1;
    }
    assert(payload@.take(n as int) =~= payload@);
    out
}

/// Reads the length announced by the header at the front of `bytes`.
pub fn frame_length(bytes: &[u8]) -> (r: core::result::Result<u64, Error>)
    ensures
        bytes@.len() < 8 ==> (r matches Err(e) && e.kind == ErrorKindSer::UnexpectedEof),
        bytes@.len() >= 8 ==> r == core::result::Result::<u64, Error>::Ok(be64_value(bytes@)),
{
    match u64::pull(bytes, 0) {
        Ok((n, _)) => {
            assert(bytes@.skip(0) =~= bytes@);
            Ok(n)
        },
        Err(e) => {
            assert(bytes@.skip(0) =~= bytes@);
            Err(e)
        },
    }
}

/// Whether `message` tells of a failed reservation of the buffer for the
/// frame announced at the front of `bytes`: one of a size that is not zero.
pub open spec fn frame_reservation_failed(bytes: Seq<u8>, message: Seq<char>) -> bool {
    let size = (be64_value(bytes) as usize) as nat;
    &&& bytes.len() >= 8
    &&& size > 0
    &&& message.len() >= reserve_failure_prefix(size).len()
    &&& message.take(reserve_failure_prefix(size).len() as int) == reserve_failure_prefix(size)
}

/// Reads a framed message from the front of `bytes`: the header, then a
/// buffer of the announced size, then its bytes. Returns the message and the
/// number of bytes taken. The buffer is allocated before its bytes are read,
/// so an announced size that cannot be allocated fails with out-of-memory.
pub fn read_frame(bytes: &[u8]) -> (r: core::result::Result<(Vec<u8>, usize), Error>)
    ensures
        bytes@.len() < 8 ==> (r matches Err(e) && e.kind == ErrorKindSer::UnexpectedEof),
        r matches Ok((payload, n)) ==> bytes@.len() >= 8 && n == 8 + be64_value(bytes@) && n
            <= bytes@.len() && payload@ == bytes@.subrange(8, n as int),
        r matches Err(e) ==> e.kind == ErrorKindSer::UnexpectedEof || e.kind
            == ErrorKindSer::OutOfMemory,
        bytes@.len() >= 8 && bytes@.len() - 8 < be64_value(bytes@) ==> r is Err,
        r matches Err(e) && e.kind == ErrorKindSer::UnexpectedEof ==> bytes@.len() < 8
            || bytes@.len() - 8 < be64_value(bytes@),
        bytes@.len() >= 8 && (be64_value(bytes@) as usize) > isize::MAX ==> (r matches Err(e)
            && e.kind == ErrorKindSer::OutOfMemory),
        bytes@.len() >= 8 && be64_value(bytes@) == 0 ==> (r matches Ok((p, n)) && n == 8
            && p@.len() == 0),
        r matches Err(e) ==> (e.kind == ErrorKindSer::OutOfMemory ==> frame_reservation_failed(
            bytes@,
            e.message@,
        )),
        r matches Err(e) ==> (e.kind == ErrorKindSer::OutOfMemory ==> e.from_refused_reservation()),
{
    broadcast use vstd::layout::layout_of_primitives;

    let size = frame_length(bytes)?;
    let rest = bytes.len() - 8;
    if size > rest as u64 {
        // the buffer is allocated before the stream runs out
        let _ = try_vec::<u8>(#[verifier::truncate] (size as usize))?;
        return Err(Error::new(ErrorKindSer::UnexpectedEof, "failed to fill whole buffer"));
    }
    let size = size as usize;
    let mut buf: Vec<u8> = try_vec::<u8>(size)?;
    let mut i: usize = 0;
    while i < size
        invariant
            size <= rest,
            rest == bytes@.len() - 8,
            bytes@.len() == bytes.len(),
            bytes@.len() >= 8,
            buf@.len() == size,
            i <= size,
            forall|j: int| 0 <= j < i ==> buf@[j] == bytes@[8 + j],
        decreases size - i,
    {
        buf.set(i, bytes[8 + i]);
        i = i + 1;
    }
    assert(buf@ =~= bytes@.subrange(8, 8 + size as int));
    Ok((buf, 8 + size))
}

/// A framed message is read back from its frame, whatever follows, unless
/// the buffer for it cannot be allocated.
pub proof fn lemma_frame_roundtrip(payload: Seq<u8>, rest: Seq<u8>)
    requires
        payload.len() <= u64::MAX,
    ensures
        be64_value(frame(payload) + rest) == payload.len(),
        (frame(payload) + rest).subrange(8, 8 + payload.len() as int) == payload,
        (frame(payload) + rest).len() - 8 >= payload.len(),
{
    lemma_seq_roundtrip::<u8>(payload, rest);
    let x = frame(payload) + rest;
    <u64 as Wire>::lemma_decode_encode(payload.len() as u64, payload + rest);
    assert(x =~= be64(payload.len() as u64) + (payload + rest));
    assert(x.subrange(8, 8 + payload.len() as int) =~= payload);
}

} // verus!
