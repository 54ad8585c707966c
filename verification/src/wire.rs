//! The binary wire format of values: big-endian integers, booleans as one
//! byte, and length-prefixed sequences and strings.
use vstd::prelude::*;

use crate::error::{Error, ErrorKindSer};
use vstd::utf8::*;
use vstd::string::*;

verus! {

/// Outcome of decoding a value at the front of some bytes: the model of the
/// value and the number of bytes it took, or the kind of the failure.
pub type Decoded<M> = core::result::Result<(M, nat), ErrorKindSer>;

/// Outcome of pulling a value out of a buffer: the value and the position
/// just past it.
pub type Pulled<T> = core::result::Result<(T, usize), Error>;

// ---------------------------------------------------------------------------
// big-endian integers

/// The two bytes of `v`, most significant first.
pub open spec fn be16(v: u16) -> Seq<u8> {
    seq![(v >> 8u16) as u8, v as u8]
}

/// The four bytes of `v`, most significant first.
pub open spec fn be32(v: u32) -> Seq<u8> {
    be16((v >> 16u32) as u16) + be16(v as u16)
}

/// The eight bytes of `v`, most significant first.
pub open spec fn be64(v: u64) -> Seq<u8> {
    be32((v >> 32u64) as u32) + be32(v as u32)
}

/// The sixteen bytes of `v`, most significant first.
pub open spec fn be128(v: u128) -> Seq<u8> {
    be64((v >> 64u128) as u64) + be64(v as u64)
}

/// The number whose big-endian bytes start `b`.
pub open spec fn be16_value(b: Seq<u8>) -> u16 {
    (((b[0] as u16) << 8u16) | (b[1] as u16)) as u16
}

/// The number whose four big-endian bytes start `b`.
pub open spec fn be32_value(b: Seq<u8>) -> u32 {
    (((be16_value(b) as u32) << 16u32) | (be16_value(b.skip(2)) as u32)) as u32
}

/// The number whose eight big-endian bytes start `b`.
pub open spec fn be64_value(b: Seq<u8>) -> u64 {
    (((be32_value(b) as u64) << 32u64) | (be32_value(b.skip(4)) as u64)) as u64
}

/// The number whose sixteen big-endian bytes start `b`.
pub open spec fn be128_value(b: Seq<u8>) -> u128 {
    (((be64_value(b) as u128) << 64u128) | (be64_value(b.skip(8)) as u128)) as u128
}

proof fn lemma_be16(v: u16, rest: Seq<u8>)
    ensures
        be16(v).len() == 2,
        be16_value(be16(v) + rest) == v,
{
    let s = be16(v) + rest;
    assert(s[0] == (v >> 8u16) as u8);
    assert(s[1] == v as u8);
    assert(((((v >> 8u16) as u8) as u16) << 8u16) | ((v as u8) as u16) == v) by (bit_vector);
}

proof fn lemma_be32(v: u32, rest: Seq<u8>)
    ensures
        be32(v).len() == 4,
        be32_value(be32(v) + rest) == v,
{
    let hi = (v >> 16u32) as u16;
    let lo = v as u16;
    lemma_be16(hi, be16(lo) + rest);
    lemma_be16(lo, rest);
    assert(be32(v) + rest =~= be16(hi) + (be16(lo) + rest));
    assert((be32(v) + rest).skip(2) =~= be16(lo) + rest);
    assert(((((v >> 16u32) as u16) as u32) << 16u32) | ((v as u16) as u32) == v) by (bit_vector);
}

/// The eight bytes of `v` are read back as `v`, whatever follows them.
pub proof fn lemma_be64(v: u64, rest: Seq<u8>)
    ensures
        be64(v).len() == 8,
        be64_value(be64(v) + rest) == v,
{
    let hi = (v >> 32u64) as u32;
    let lo = v as u32;
    lemma_be32(hi, be32(lo) + rest);
    lemma_be32(lo, rest);
    assert(be64(v) + rest =~= be32(hi) + (be32(lo) + rest));
    assert((be64(v) + rest).skip(4) =~= be32(lo) + rest);
    assert(((((v >> 32u64) as u32) as u64) << 32u64) | ((v as u32) as u64) == v) by (bit_vector);
}

proof fn lemma_be128(v: u128, rest: Seq<u8>)
    ensures
        be128(v).len() == 16,
        be128_value(be128(v) + rest) == v,
{
    let hi = (v >> 64u128) as u64;
    let lo = v as u64;
    lemma_be64(hi, be64(lo) + rest);
    lemma_be64(lo, rest);
    assert(be128(v) + rest =~= be64(hi) + (be64(lo) + rest));
    assert((be128(v) + rest).skip(8) =~= be64(lo) + rest);
    assert(((((v >> 64u128) as u64) as u128) << 64u128) | ((v as u64) as u128) == v)
        by (bit_vector);
}

fn write_be16(v: u16, out: &mut Vec<u8>)
    ensures
        final(out)@ == old(out)@ + be16(v),
{
    out.push((v >> 8u16) as u8);
    out.push(v as u8);
    assert(final(out)@ =~= old(out)@ + be16(v));
}

fn write_be32(v: u32, out: &mut Vec<u8>)
    ensures
        final(out)@ == old(out)@ + be32(v),
{
    write_be16((v >> 16u32) as u16, out);
    write_be16(v as u16, out);
    assert(final(out)@ =~= old(out)@ + be32(v));
}

fn write_be64(v: u64, out: &mut Vec<u8>)
    ensures
        final(out)@ == old(out)@ + be64(v),
{
    write_be32((v >> 32u64) as u32, out);
    write_be32(v as u32, out);
    assert(final(out)@ =~= old(out)@ + be64(v));
}

fn write_be128(v: u128, out: &mut Vec<u8>)
    ensures
        final(out)@ == old(out)@ + be128(v),
{
    write_be64((v >> 64u128) as u64, out);
    write_be64(v as u64, out);
    assert(final(out)@ =~= old(out)@ + be128(v));
}

fn read_be16(b: &[u8], pos: usize) -> (r: u16)
    requires
        pos + 2 <= b@.len(),
    ensures
        r == be16_value(b@.skip(pos as int)),
{
    ((b[pos] as u16) << 8u16) | (b[pos + 1] as u16)
}

fn read_be32(b: &[u8], pos: usize) -> (r: u32)
    requires
        pos + 4 <= b@.len(),
    ensures
        r == be32_value(b@.skip(pos as int)),
{
    let _n = b.len();
    let hi = read_be16(b, pos);
    let lo = read_be16(b, pos + 2);
    assert(b@.skip(pos as int).skip(2) =~= b@.skip(pos + 2));
    ((hi as u32) << 16u32) | (lo as u32)
}

fn read_be64(b: &[u8], pos: usize) -> (r: u64)
    requires
        pos + 8 <= b@.len(),
    ensures
        r == be64_value(b@.skip(pos as int)),
{
    let _n = b.len();
    let hi = read_be32(b, pos);
    let lo = read_be32(b, pos + 4);
    assert(b@.skip(pos as int).skip(4) =~= b@.skip(pos + 4));
    ((hi as u64) << 32u64) | (lo as u64)
}

fn read_be128(b: &[u8], pos: usize) -> (r: u128)
    requires
        pos + 16 <= b@.len(),
    ensures
        r == be128_value(b@.skip(pos as int)),
{
    let _n = b.len();
    let hi = read_be64(b, pos);
    let lo = read_be64(b, pos + 8);
    assert(b@.skip(pos as int).skip(8) =~= b@.skip(pos + 8));
    ((hi as u128) << 64u128) | (lo as u128)
}

/// The error that a read of too few bytes ends with.
fn eof_error() -> (e: Error)
    ensures
        e.kind == ErrorKindSer::UnexpectedEof,
{
    Error::new(ErrorKindSer::UnexpectedEof, "failed to fill whole buffer")
}

// ---------------------------------------------------------------------------
// the format

/// A type with a binary wire format. `model` is what a value stands for,
/// `encoding` the bytes it is sent as, and `decode_prefix` what is read back
/// from the front of some bytes.
pub trait Wire: Sized {
    type Model;

    spec fn model(&self) -> Self::Model;

    /// The models that have an encoding (a sequence whose length fits the
    /// length prefix, for instance).
    spec fn wf_model(m: Self::Model) -> bool;

    spec fn encoding(m: Self::Model) -> Seq<u8>;

    spec fn decode_prefix(b: Seq<u8>) -> Decoded<Self::Model>;

    /// Appends the encoding of `self` to `out`.
    fn send(&self, out: &mut Vec<u8>)
        requires
            Self::wf_model(self.model()),
        ensures
            final(out)@ == old(out)@ + Self::encoding(self.model()),
    ;

    /// Reads a value from `bytes` at `pos`.
    fn pull(bytes: &[u8], pos: usize) -> (r: Pulled<Self>)
        requires
            pos <= bytes@.len(),
        ensures
            match Self::decode_prefix(bytes@.skip(pos as int)) {
                Ok((m, n)) => r matches Ok((v, end)) && v.model() == m && end == pos + n,
                Err(k) => r matches Err(e) && e.kind == k,
            },
    ;

    /// A value is read back from its encoding, whatever follows it.
    proof fn lemma_decode_encode(m: Self::Model, rest: Seq<u8>)
        requires
            Self::wf_model(m),
        ensures
            Self::decode_prefix(Self::encoding(m) + rest) == Decoded::<Self::Model>::Ok(
                (m, Self::encoding(m).len()),
            ),
    ;

    /// Decoding never takes more bytes than there are, and gives an encodable model.
    proof fn lemma_decode_bounds(b: Seq<u8>)
        ensures
            Self::decode_prefix(b) matches Ok((m, n)) ==> n <= b.len() && Self::wf_model(m),
    ;
}

impl Wire for u8 {
    type Model = u8;

    open spec fn model(&self) -> u8 {
        *self
    }

    open spec fn wf_model(m: u8) -> bool {
        true
    }

    open spec fn encoding(m: u8) -> Seq<u8> {
        seq![m]
    }

    open spec fn decode_prefix(b: Seq<u8>) -> Decoded<u8> {
        if b.len() < 1 {
            Err(ErrorKindSer::UnexpectedEof)
        } else {
            Ok((b[0], 1))
        }
    }

    fn send(&self, out: &mut Vec<u8>) {
        out.push(*self);
        assert(final(out)@ =~= old(out)@ + seq![*self]);
    }

    fn pull(bytes: &[u8], pos: usize) -> (r: Pulled<u8>) {
        if bytes.len() - pos < 1 {
            Err(eof_error())
        } else {
            Ok((bytes[pos], pos + 1))
        }
    }

    proof fn lemma_decode_encode(m: u8, rest: Seq<u8>) {
        assert((seq![m] + rest)[0] == m);
    }

    proof fn lemma_decode_bounds(b: Seq<u8>) {
    }
}

impl Wire for u16 {
    type Model = u16;

    open spec fn model(&self) -> u16 {
        *self
    }

    open spec fn wf_model(m: u16) -> bool {
        true
    }

    open spec fn encoding(m: u16) -> Seq<u8> {
        be16(m)
    }

    open spec fn decode_prefix(b: Seq<u8>) -> Decoded<u16> {
        if b.len() < 2 {
            Err(ErrorKindSer::UnexpectedEof)
        } else {
            Ok((be16_value(b), 2))
        }
    }

    fn send(&self, out: &mut Vec<u8>) {
        write_be16(*self, out);
    }

    fn pull(bytes: &[u8], pos: usize) -> (r: Pulled<u16>) {
        if bytes.len() - pos < 2 {
            Err(eof_error())
        } else {
            Ok((read_be16(bytes, pos), pos + 2))
        }
    }

    proof fn lemma_decode_encode(m: u16, rest: Seq<u8>) {
        lemma_be16(m, rest);
    }

    proof fn lemma_decode_bounds(b: Seq<u8>) {
    }
}

impl Wire for u32 {
    type Model = u32;

    open spec fn model(&self) -> u32 {
        *self
    }

    open spec fn wf_model(m: u32) -> bool {
        true
    }

    open spec fn encoding(m: u32) -> Seq<u8> {
        be32(m)
    }

    open spec fn decode_prefix(b: Seq<u8>) -> Decoded<u32> {
        if b.len() < 4 {
            Err(ErrorKindSer::UnexpectedEof)
        } else {
            Ok((be32_value(b), 4))
        }
    }

    fn send(&self, out: &mut Vec<u8>) {
        write_be32(*self, out);
    }

    fn pull(bytes: &[u8], pos: usize) -> (r: Pulled<u32>) {
        if bytes.len() - pos < 4 {
            Err(eof_error())
        } else {
            Ok((read_be32(bytes, pos), pos + 4))
        }
    }

    proof fn lemma_decode_encode(m: u32, rest: Seq<u8>) {
        lemma_be32(m, rest);
    }

    proof fn lemma_decode_bounds(b: Seq<u8>) {
    }
}

impl Wire for u64 {
    type Model = u64;

    open spec fn model(&self) -> u64 {
        *self
    }

    open spec fn wf_model(m: u64) -> bool {
        true
    }

    open spec fn encoding(m: u64) -> Seq<u8> {
        be64(m)
    }

    open spec fn decode_prefix(b: Seq<u8>) -> Decoded<u64> {
        if b.len() < 8 {
            Err(ErrorKindSer::UnexpectedEof)
        } else {
            Ok((be64_value(b), 8))
        }
    }

    fn send(&self, out: &mut Vec<u8>) {
        write_be64(*self, out);
    }

    fn pull(bytes: &[u8], pos: usize) -> (r: Pulled<u64>) {
        if bytes.len() - pos < 8 {
            Err(eof_error())
        } else {
            Ok((read_be64(bytes, pos), pos + 8))
        }
    }

    proof fn lemma_decode_encode(m: u64, rest: Seq<u8>) {
        lemma_be64(m, rest);
    }

    proof fn lemma_decode_bounds(b: Seq<u8>) {
    }
}

impl Wire for u128 {
    type Model = u128;

    open spec fn model(&self) -> u128 {
        *self
    }

    open spec fn wf_model(m: u128) -> bool {
        true
    }

    open spec fn encoding(m: u128) -> Seq<u8> {
        be128(m)
    }

    open spec fn decode_prefix(b: Seq<u8>) -> Decoded<u128> {
        if b.len() < 16 {
            Err(ErrorKindSer::UnexpectedEof)
        } else {
            Ok((be128_value(b), 16))
        }
    }

    fn send(&self, out: &mut Vec<u8>) {
        write_be128(*self, out);
    }

    fn pull(bytes: &[u8], pos: usize) -> (r: Pulled<u128>) {
        if bytes.len() - pos < 16 {
            Err(eof_error())
        } else {
            Ok((read_be128(bytes, pos), pos + 16))
        }
    }

    proof fn lemma_decode_encode(m: u128, rest: Seq<u8>) {
        lemma_be128(m, rest);
    }

    proof fn lemma_decode_bounds(b: Seq<u8>) {
    }
}


impl Wire for i16 {
    type Model = i16;

    open spec fn model(&self) -> i16 {
        *self
    }

    open spec fn wf_model(m: i16) -> bool {
        true
    }

    open spec fn encoding(m: i16) -> Seq<u8> {
        be16(m as u16)
    }

    open spec fn decode_prefix(b: Seq<u8>) -> Decoded<i16> {
        if b.len() < 2 {
            Err(ErrorKindSer::UnexpectedEof)
        } else {
            Ok((be16_value(b) as i16, 2))
        }
    }

    fn send(&self, out: &mut Vec<u8>) {
        write_be16(*self as u16, out);
    }

    fn pull(bytes: &[u8], pos: usize) -> (r: Pulled<i16>) {
        if bytes.len() - pos < 2 {
            Err(eof_error())
        } else {
            Ok((read_be16(bytes, pos) as i16, pos + 2))
        }
    }

    proof fn lemma_decode_encode(m: i16, rest: Seq<u8>) {
        lemma_be16(m as u16, rest);
        assert((m as u16) as i16 == m) by (bit_vector);
    }

    proof fn lemma_decode_bounds(b: Seq<u8>) {
    }
}

impl Wire for i32 {
    type Model = i32;

    open spec fn model(&self) -> i32 {
        *self
    }

    open spec fn wf_model(m: i32) -> bool {
        true
    }

    open spec fn encoding(m: i32) -> Seq<u8> {
        be32(m as u32)
    }

    open spec fn decode_prefix(b: Seq<u8>) -> Decoded<i32> {
        if b.len() < 4 {
            Err(ErrorKindSer::UnexpectedEof)
        } else {
            Ok((be32_value(b) as i32, 4))
        }
    }

    fn send(&self, out: &mut Vec<u8>) {
        write_be32(*self as u32, out);
    }

    fn pull(bytes: &[u8], pos: usize) -> (r: Pulled<i32>) {
        if bytes.len() - pos < 4 {
            Err(eof_error())
        } else {
            Ok((read_be32(bytes, pos) as i32, pos + 4))
        }
    }

    proof fn lemma_decode_encode(m: i32, rest: Seq<u8>) {
        lemma_be32(m as u32, rest);
        assert((m as u32) as i32 == m) by (bit_vector);
    }

    proof fn lemma_decode_bounds(b: Seq<u8>) {
    }
}

impl Wire for i64 {
    type Model = i64;

    open spec fn model(&self) -> i64 {
        *self
    }

    open spec fn wf_model(m: i64) -> bool {
        true
    }

    open spec fn encoding(m: i64) -> Seq<u8> {
        be64(m as u64)
    }

    open spec fn decode_prefix(b: Seq<u8>) -> Decoded<i64> {
        if b.len() < 8 {
            Err(ErrorKindSer::UnexpectedEof)
        } else {
            Ok((be64_value(b) as i64, 8))
        }
    }

    fn send(&self, out: &mut Vec<u8>) {
        write_be64(*self as u64, out);
    }

    fn pull(bytes: &[u8], pos: usize) -> (r: Pulled<i64>) {
        if bytes.len() - pos < 8 {
            Err(eof_error())
        } else {
            Ok((read_be64(bytes, pos) as i64, pos + 8))
        }
    }

    proof fn lemma_decode_encode(m: i64, rest: Seq<u8>) {
        lemma_be64(m as u64, rest);
        assert((m as u64) as i64 == m) by (bit_vector);
    }

    proof fn lemma_decode_bounds(b: Seq<u8>) {
    }
}

impl Wire for i128 {
    type Model = i128;

    open spec fn model(&self) -> i128 {
        *self
    }

    open spec fn wf_model(m: i128) -> bool {
        true
    }

    open spec fn encoding(m: i128) -> Seq<u8> {
        be128(m as u128)
    }

    open spec fn decode_prefix(b: Seq<u8>) -> Decoded<i128> {
        if b.len() < 16 {
            Err(ErrorKindSer::UnexpectedEof)
        } else {
            Ok((be128_value(b) as i128, 16))
        }
    }

    fn send(&self, out: &mut Vec<u8>) {
        write_be128(*self as u128, out);
    }

    fn pull(bytes: &[u8], pos: usize) -> (r: Pulled<i128>) {
        if bytes.len() - pos < 16 {
            Err(eof_error())
        } else {
            Ok((read_be128(bytes, pos) as i128, pos + 16))
        }
    }

    proof fn lemma_decode_encode(m: i128, rest: Seq<u8>) {
        lemma_be128(m as u128, rest);
        assert((m as u128) as i128 == m) by (bit_vector);
    }

    proof fn lemma_decode_bounds(b: Seq<u8>) {
    }
}

impl Wire for i8 {
    type Model = i8;

    open spec fn model(&self) -> i8 {
        *self
    }

    open spec fn wf_model(m: i8) -> bool {
        true
    }

    open spec fn encoding(m: i8) -> Seq<u8> {
        seq![m as u8]
    }

    open spec fn decode_prefix(b: Seq<u8>) -> Decoded<i8> {
        if b.len() < 1 {
            Err(ErrorKindSer::UnexpectedEof)
        } else {
            Ok((b[0] as i8, 1))
        }
    }

    fn send(&self, out: &mut Vec<u8>) {
        out.push(*self as u8);
        assert(final(out)@ =~= old(out)@ + seq![*self as u8]);
    }

    fn pull(bytes: &[u8], pos: usize) -> (r: Pulled<i8>) {
        if bytes.len() - pos < 1 {
            Err(eof_error())
        } else {
            Ok((bytes[pos] as i8, pos + 1))
        }
    }

    proof fn lemma_decode_encode(m: i8, rest: Seq<u8>) {
        assert((seq![m as u8] + rest)[0] == m as u8);
        assert((m as u8) as i8 == m) by (bit_vector);
    }

    proof fn lemma_decode_bounds(b: Seq<u8>) {
    }
}

/// A boolean is one byte: 1 for true, 0 for false. Reading takes any byte
/// other than 1 as false.
impl Wire for bool {
    type Model = bool;

    open spec fn model(&self) -> bool {
        *self
    }

    open spec fn wf_model(m: bool) -> bool {
        true
    }

    open spec fn encoding(m: bool) -> Seq<u8> {
        seq![if m { 1u8 } else { 0u8 }]
    }

    open spec fn decode_prefix(b: Seq<u8>) -> Decoded<bool> {
        if b.len() < 1 {
            Err(ErrorKindSer::UnexpectedEof)
        } else {
            Ok((b[0] == 1, 1))
        }
    }

    fn send(&self, out: &mut Vec<u8>) {
        let byte: u8 = if *self { 1 } else { 0 };
        out.push(byte);
        assert(final(out)@ =~= old(out)@ + Self::encoding(*self));
    }

    fn pull(bytes: &[u8], pos: usize) -> (r: Pulled<bool>) {
        if bytes.len() - pos < 1 {
            Err(eof_error())
        } else {
            Ok((bytes[pos] == 1, pos + 1))
        }
    }

    proof fn lemma_decode_encode(m: bool, rest: Seq<u8>) {
        assert((Self::encoding(m) + rest)[0] == if m { 1u8 } else { 0u8 });
    }

    proof fn lemma_decode_bounds(b: Seq<u8>) {
    }
}


// ---------------------------------------------------------------------------
// sequences: a u64 count, then the elements one after the other

/// The models of the elements of `v`.
pub open spec fn models<T: Wire>(v: Seq<T>) -> Seq<T::Model> {
    v.map_values(|x: T| x.model())
}

/// The encodings of the elements of `ms`, one after the other.
pub open spec fn encode_all<T: Wire>(ms: Seq<T::Model>) -> Seq<u8>
    decreases ms.len(),
{
    if ms.len() == 0 {
        seq![]
    } else {
        encode_all::<T>(ms.drop_last()) + T::encoding(ms.last())
    }
}

/// Decodes `n` elements one after the other from the front of `b`.
pub open spec fn decode_many<T: Wire>(b: Seq<u8>, n: nat) -> Decoded<Seq<T::Model>>
    decreases n,
{
    if n == 0 {
        Ok((seq![], 0))
    } else {
        match decode_many::<T>(b, (n - 1) as nat) {
            Ok((ms, k)) => match T::decode_prefix(b.skip(k as int)) {
                Ok((m, j)) => Ok((ms.push(m), k + j)),
                Err(e) => Err(e),
            },
            Err(e) => Err(e),
        }
    }
}

/// Models of a sequence that can be sent: few enough elements for the count,
/// each of them encodable.
pub open spec fn wf_models<T: Wire>(ms: Seq<T::Model>) -> bool {
    &&& ms.len() <= u64::MAX
    &&& forall|i: int| 0 <= i < ms.len() ==> #[trigger] T::wf_model(ms[i])
}

/// The encoding of a sequence: its count, then its elements.
pub open spec fn seq_encoding<T: Wire>(ms: Seq<T::Model>) -> Seq<u8> {
    be64(ms.len() as u64) + encode_all::<T>(ms)
}

/// Decoding of a sequence from the front of `b`.
pub open spec fn seq_decode<T: Wire>(b: Seq<u8>) -> Decoded<Seq<T::Model>> {
    if b.len() < 8 {
        Err(ErrorKindSer::UnexpectedEof)
    } else {
        match decode_many::<T>(b.skip(8), be64_value(b) as nat) {
            Ok((ms, k)) => Ok((ms, 8 + k)),
            Err(e) => Err(e),
        }
    }
}

proof fn lemma_decode_many_err_persists<T: Wire>(b: Seq<u8>, n: nat, m: nat)
    requires
        n <= m,
        decode_many::<T>(b, n) is Err,
    ensures
        decode_many::<T>(b, m) == decode_many::<T>(b, n),
    decreases m,
{
    if m > n {
        lemma_decode_many_err_persists::<T>(b, n, (m - 1) as nat);
    }
}

proof fn lemma_decode_many_bounds<T: Wire>(b: Seq<u8>, n: nat)
    ensures
        decode_many::<T>(b, n) matches Ok((ms, k)) ==> k <= b.len() && ms.len() == n && forall|
            i: int,
        | 0 <= i < ms.len() ==> #[trigger] T::wf_model(ms[i]),
    decreases n,
{
    if n > 0 {
        lemma_decode_many_bounds::<T>(b, (n - 1) as nat);
        if let Ok((ms, k)) = decode_many::<T>(b, (n - 1) as nat) {
            T::lemma_decode_bounds(b.skip(k as int));
            if let Ok((m, j)) = T::decode_prefix(b.skip(k as int)) {
                assert forall|i: int| 0 <= i < ms.push(m).len() implies #[trigger] T::wf_model(
                    ms.push(m)[i],
                ) by {
                    if i < ms.len() {
                        assert(ms.push(m)[i] == ms[i]);
                    }
                }
            }
        }
    }
}

proof fn lemma_decode_many_encode_all<T: Wire>(ms: Seq<T::Model>, rest: Seq<u8>)
    requires
        forall|i: int| 0 <= i < ms.len() ==> #[trigger] T::wf_model(ms[i]),
    ensures
        decode_many::<T>(encode_all::<T>(ms) + rest, ms.len()) == Decoded::<Seq<T::Model>>::Ok(
            (ms, encode_all::<T>(ms).len()),
        ),
    decreases ms.len(),
{
    if ms.len() > 0 {
        let p = ms.drop_last();
        let l = ms.last();
        assert(T::wf_model(ms[ms.len() - 1]));
        assert forall|i: int| 0 <= i < p.len() implies #[trigger] T::wf_model(p[i]) by {
            assert(p[i] == ms[i]);
        }
        let tail = T::encoding(l) + rest;
        lemma_decode_many_encode_all::<T>(p, tail);
        let x = encode_all::<T>(ms) + rest;
        assert(x =~= encode_all::<T>(p) + tail);
        assert(x.skip(encode_all::<T>(p).len() as int) =~= tail);
        T::lemma_decode_encode(l, rest);
        assert(p.push(l) =~= ms);
        assert(encode_all::<T>(ms) == encode_all::<T>(p) + T::encoding(l));
        assert(decode_many::<T>(x, (ms.len() - 1) as nat) == Decoded::<Seq<T::Model>>::Ok(
            (p, encode_all::<T>(p).len()),
        ));
        assert(T::decode_prefix(x.skip(encode_all::<T>(p).len() as int)) == Decoded::<
            T::Model,
        >::Ok((l, T::encoding(l).len())));
    } else {
        assert(encode_all::<T>(ms) =~= seq![]);
        assert(ms =~= seq![]);
    }
}

/// A sequence is read back from its encoding, whatever follows it.
pub proof fn lemma_seq_roundtrip<T: Wire>(ms: Seq<T::Model>, rest: Seq<u8>)
    requires
        wf_models::<T>(ms),
    ensures
        seq_decode::<T>(seq_encoding::<T>(ms) + rest) == Decoded::<Seq<T::Model>>::Ok(
            (ms, seq_encoding::<T>(ms).len()),
        ),
{
    let x = seq_encoding::<T>(ms) + rest;
    lemma_be64(ms.len() as u64, encode_all::<T>(ms) + rest);
    assert(x =~= be64(ms.len() as u64) + (encode_all::<T>(ms) + rest));
    assert(x.skip(8) =~= encode_all::<T>(ms) + rest);
    lemma_decode_many_encode_all::<T>(ms, rest);
}

proof fn lemma_seq_decode_bounds<T: Wire>(b: Seq<u8>)
    ensures
        seq_decode::<T>(b) matches Ok((ms, n)) ==> n <= b.len() && wf_models::<T>(ms),
{
    if b.len() >= 8 {
        lemma_decode_many_bounds::<T>(b.skip(8), be64_value(b) as nat);
    }
}

/// Appends the encoding of a slice: its length as a u64, then each element.
pub fn send_slice<T: Wire>(items: &[T], out: &mut Vec<u8>)
    requires
        forall|i: int| 0 <= i < items@.len() ==> #[trigger] T::wf_model(items@[i].model()),
    ensures
        final(out)@ == old(out)@ + seq_encoding::<T>(models(items@)),
{
    let n = items.len();
    let ghost ms = models(items@);
    write_be64(n as u64, out);
    let mut i: usize = 0;
    while i < n
        invariant
            n == items@.len(),
            ms == models(items@),
            i <= n,
            forall|j: int| 0 <= j < items@.len() ==> #[trigger] T::wf_model(items@[j].model()),
            out@ == old(out)@ + be64(n as u64) + encode_all::<T>(ms.take(i as int)),
        decreases n - i,
    {
        let ghost before = out@;
        items[i].send(out);
        proof {
            assert(ms.take(i + 1).drop_last() =~= ms.take(i as int));
            assert(ms.take(i + 1).last() == items@[i as int].model());
            assert(out@ =~= old(out)@ + be64(n as u64) + encode_all::<T>(ms.take(i + 1)));
        }
        i = i + 1;
    }
    assert(ms.take(n as int) =~= ms);
    assert(ms.len() == n);
}

proof fn lemma_models_wf<T: Wire>(items: Seq<T>)
    requires
        items.len() <= u64::MAX,
        forall|i: int| 0 <= i < items.len() ==> #[trigger] T::wf_model(items[i].model()),
    ensures
        wf_models::<T>(models(items)),
{
    assert forall|i: int| 0 <= i < models(items).len() implies #[trigger] T::wf_model(
        models(items)[i],
    ) by {
        assert(T::wf_model(items[i].model()));
    }
}

impl<T: Wire> Wire for Vec<T> {
    type Model = Seq<T::Model>;

    open spec fn model(&self) -> Seq<T::Model> {
        models(self@)
    }

    open spec fn wf_model(m: Seq<T::Model>) -> bool {
        wf_models::<T>(m)
    }

    open spec fn encoding(m: Seq<T::Model>) -> Seq<u8> {
        seq_encoding::<T>(m)
    }

    open spec fn decode_prefix(b: Seq<u8>) -> Decoded<Seq<T::Model>> {
        seq_decode::<T>(b)
    }

    fn send(&self, out: &mut Vec<u8>) {
        proof {
            assert forall|i: int| 0 <= i < self@.len() implies #[trigger] T::wf_model(
                self@[i].model(),
            ) by {
                assert(models(self@)[i] == self@[i].model());
            }
        }
        send_slice(self.as_slice(), out);
    }

    fn pull(bytes: &[u8], pos: usize) -> (r: Pulled<Vec<T>>) {
        if bytes.len() - pos < 8 {
            return Err(eof_error());
        }
        let count = read_be64(bytes, pos);
        let start = pos + 8;
        let ghost b = bytes@.skip(pos as int);
        let ghost body = bytes@.skip(start as int);
        assert(b.skip(8) =~= body);
        let mut cur = start;
        let mut v: Vec<T> = Vec::new();
        let mut i: u64 = 0;
        assert(models(v@) =~= seq![]);
        while i < count
            invariant
                start == pos + 8,
                start <= cur <= bytes@.len(),
                i <= count,
                body == bytes@.skip(start as int),
                b == bytes@.skip(pos as int),
                b.len() >= 8,
                b.skip(8) == body,
                count == be64_value(b),
                decode_many::<T>(body, i as nat) == Decoded::<Seq<T::Model>>::Ok(
                    (models(v@), (cur - start) as nat),
                ),
            decreases count - i,
        {
            let ghost k = (cur - start) as nat;
            assert(body.skip(k as int) =~= bytes@.skip(cur as int));
            match T::pull(bytes, cur) {
                Ok((x, end)) => {
                    proof {
                        T::lemma_decode_bounds(bytes@.skip(cur as int));
                    }
                    let ghost old_v = v@;
                    v.push(x);
                    proof {
                        assert(models(v@) =~= models(old_v).push(x.model()));
                    }
                    cur = end;
                    i = i + 1;
                },
                Err(e) => {
                    proof {
                        assert(decode_many::<T>(body, (i + 1) as nat) is Err);
                        lemma_decode_many_err_persists::<T>(body, (i + 1) as nat, count as nat);
                    }
                    return Err(e);
                },
            }
        }
        Ok((v, cur))
    }

    proof fn lemma_decode_encode(m: Seq<T::Model>, rest: Seq<u8>) {
        lemma_seq_roundtrip::<T>(m, rest);
    }

    proof fn lemma_decode_bounds(b: Seq<u8>) {
        lemma_seq_decode_bounds::<T>(b);
    }
}


// ---------------------------------------------------------------------------
// arrays: their elements one after the other, without a count

/// Turns a vector into an array of `N` items. Calls `<[T; N]>::try_from`,
/// which the standard library documents as succeeding exactly when the
/// vector holds `N` items, the array then holding them in order.
#[verifier::external_body]
fn array_from_vec<T, const N: usize>(v: Vec<T>) -> (r: Option<[T; N]>)
    ensures
        r is Some <==> v@.len() == N,
        r matches Some(a) ==> a@ == v@,
{
    <[T; N]>::try_from(v).ok()
}

impl<T: Wire, const N: usize> Wire for [T; N] {
    type Model = Seq<T::Model>;

    open spec fn model(&self) -> Seq<T::Model> {
        models(self@)
    }

    open spec fn wf_model(m: Seq<T::Model>) -> bool {
        &&& m.len() == N
        &&& forall|i: int| 0 <= i < m.len() ==> #[trigger] T::wf_model(m[i])
    }

    open spec fn encoding(m: Seq<T::Model>) -> Seq<u8> {
        encode_all::<T>(m)
    }

    open spec fn decode_prefix(b: Seq<u8>) -> Decoded<Seq<T::Model>> {
        decode_many::<T>(b, N as nat)
    }

    fn send(&self, out: &mut Vec<u8>) {
        let ghost ms = models(self@);
        let mut i: usize = 0;
        proof {
            vstd::array::array_len_matches_n(self);
        }
        while i < N
            invariant
                self@.len() == N,
                ms == models(self@),
                i <= N,
                forall|j: int| 0 <= j < ms.len() ==> #[trigger] T::wf_model(ms[j]),
                out@ == old(out)@ + encode_all::<T>(ms.take(i as int)),
            decreases N - i,
        {
            let ghost before = out@;
            proof {
                assert(ms[i as int] == self@[i as int].model());
                assert(T::wf_model(ms[i as int]));
            }
            self[i].send(out);
            proof {
                assert(ms.take(i + 1).drop_last() =~= ms.take(i as int));
                assert(ms.take(i + 1).last() == self@[i as int].model());
                assert(out@ =~= old(out)@ + encode_all::<T>(ms.take(i + 1)));
            }
            i = i + 1;
        }
        assert(ms.take(N as int) =~= ms);
    }

    fn pull(bytes: &[u8], pos: usize) -> (r: Pulled<[T; N]>) {
        let ghost body = bytes@.skip(pos as int);
        let mut cur = pos;
        let mut v: Vec<T> = Vec::new();
        let mut i: usize = 0;
        assert(models(v@) =~= seq![]);
        while i < N
            invariant
                pos <= cur <= bytes@.len(),
                i <= N,
                v@.len() == i,
                body == bytes@.skip(pos as int),
                decode_many::<T>(body, i as nat) == Decoded::<Seq<T::Model>>::Ok(
                    (models(v@), (cur - pos) as nat),
                ),
            decreases N - i,
        {
            let ghost k = (cur - pos) as nat;
            assert(body.skip(k as int) =~= bytes@.skip(cur as int));
            match T::pull(bytes, cur) {
                Ok((x, end)) => {
                    proof {
                        T::lemma_decode_bounds(bytes@.skip(cur as int));
                    }
                    let ghost old_v = v@;
                    v.push(x);
                    proof {
                        assert(models(v@) =~= models(old_v).push(x.model()));
                    }
                    cur = end;
                    i = i + 1;
                },
                Err(e) => {
                    proof {
                        assert(decode_many::<T>(body, (i + 1) as nat) is Err);
                        lemma_decode_many_err_persists::<T>(body, (i + 1) as nat, N as nat);
                    }
                    return Err(e);
                },
            }
        }
        let ghost vs = v@;
        match array_from_vec::<T, N>(v) {
            Some(a) => {
                assert(models(a@) =~= models(vs));
                Ok((a, cur))
            },
            None => Err(eof_error()),
        }
    }

    proof fn lemma_decode_encode(m: Seq<T::Model>, rest: Seq<u8>) {
        lemma_decode_many_encode_all::<T>(m, rest);
    }

    proof fn lemma_decode_bounds(b: Seq<u8>) {
        lemma_decode_many_bounds::<T>(b, N as nat);
    }
}

// ---------------------------------------------------------------------------
// strings: sent as the bytes of their UTF-8 encoding, like a Vec<u8>

/// Converts bytes into a string when they are valid UTF-8.
/// Calls `String::from_utf8`, which the standard library documents as
/// succeeding exactly when the bytes are valid UTF-8, the string then holding
/// those bytes.
#[verifier::external_body]
fn string_from_utf8(bytes: Vec<u8>) -> (r: Option<String>)
    ensures
        r is Some <==> valid_utf8(bytes@),
        r matches Some(s) ==> s@ == decode_utf8(bytes@),
{
    String::from_utf8(bytes).ok()
}

/// The encoding of a string: the length of its UTF-8 bytes as a u64, then the bytes.
pub open spec fn string_encoding(chars: Seq<char>) -> Seq<u8> {
    be64(encode_utf8(chars).len() as u64) + encode_utf8(chars)
}

/// Decoding of a string: a u64 length, then that many bytes, which must be UTF-8.
pub open spec fn string_decode(b: Seq<u8>) -> Decoded<Seq<char>> {
    if b.len() < 8 || b.len() - 8 < be64_value(b) {
        Err(ErrorKindSer::UnexpectedEof)
    } else if !valid_utf8(b.subrange(8, 8 + be64_value(b))) {
        Err(ErrorKindSer::Other)
    } else {
        Ok((decode_utf8(b.subrange(8, 8 + be64_value(b))), (8 + be64_value(b)) as nat))
    }
}

/// Appends the encoding of a string slice.
pub fn send_str(s: &str, out: &mut Vec<u8>)
    requires
        encode_utf8(s@).len() <= u64::MAX,
    ensures
        final(out)@ == old(out)@ + string_encoding(s@),
{
    let bytes = s.as_bytes();
    write_be64(bytes.len() as u64, out);
    let n = bytes.len();
    let mut i: usize = 0;
    while i < n
        invariant
            n == bytes@.len(),
            bytes@ == encode_utf8(s@),
            i <= n,
            out@ == old(out)@ + be64(n as u64) + bytes@.take(i as int),
        decreases n - i,
    {
        out.push(bytes[i]);
        assert(bytes@.take(i + 1) =~= bytes@.take(i as int).push(bytes@[i as int]));
        i = i + 1;
    }
    assert(bytes@.take(n as int) =~= bytes@);
}

impl Wire for String {
    type Model = Seq<char>;

    open spec fn model(&self) -> Seq<char> {
        self@
    }

    open spec fn wf_model(m: Seq<char>) -> bool {
        encode_utf8(m).len() <= u64::MAX
    }

    open spec fn encoding(m: Seq<char>) -> Seq<u8> {
        string_encoding(m)
    }

    open spec fn decode_prefix(b: Seq<u8>) -> Decoded<Seq<char>> {
        string_decode(b)
    }

    fn send(&self, out: &mut Vec<u8>) {
        send_str(self.as_str(), out);
    }

    fn pull(bytes: &[u8], pos: usize) -> (r: Pulled<String>) {
        let ghost b = bytes@.skip(pos as int);
        if bytes.len() - pos < 8 {
            return Err(eof_error());
        }
        let count = read_be64(bytes, pos);
        let start = pos + 8;
        if count > (bytes.len() - start) as u64 {
            return Err(eof_error());
        }
        let end = start + count as usize;
        let mut v: Vec<u8> = Vec::new();
        let mut i = start;
        while i < end
            invariant
                start <= i <= end <= bytes@.len(),
                v@ == bytes@.subrange(start as int, i as int),
            decreases end - i,
        {
            v.push(bytes[i]);
            assert(bytes@.subrange(start as int, i + 1) =~= bytes@.subrange(start as int, i as int).push(bytes@[i as int]));
            i = i + 1;
        }
        assert(b.subrange(8, 8 + be64_value(b)) =~= v@);
        match string_from_utf8(v) {
            Some(s) => Ok((s, end)),
            None => Err(Error::new(ErrorKindSer::Other, "invalid utf-8 sequence")),
        }
    }

    proof fn lemma_decode_encode(m: Seq<char>, rest: Seq<u8>) {
        let bytes = encode_utf8(m);
        let x = string_encoding(m) + rest;
        lemma_be64(bytes.len() as u64, bytes + rest);
        assert(x =~= be64(bytes.len() as u64) + (bytes + rest));
        assert(x.subrange(8, 8 + bytes.len() as int) =~= bytes);
        encode_utf8_valid_utf8(m);
        encode_utf8_decode_utf8(m);
    }

    proof fn lemma_decode_bounds(b: Seq<u8>) {
        if string_decode(b) is Ok {
            let bytes = b.subrange(8, 8 + be64_value(b));
            decode_utf8_encode_utf8(bytes);
        }
    }
}

proof fn lemma_encode_all_bytes(bs: Seq<u8>)
    ensures
        encode_all::<u8>(bs) == bs,
    decreases bs.len(),
{
    if bs.len() > 0 {
        lemma_encode_all_bytes(bs.drop_last());
        assert(bs.drop_last() + seq![bs.last()] =~= bs);
    } else {
        assert(bs =~= seq![]);
    }
}

/// A string is sent exactly as the `Vec<u8>` of its UTF-8 bytes would be.
pub proof fn lemma_string_as_bytes(m: Seq<char>)
    ensures
        string_encoding(m) == seq_encoding::<u8>(encode_utf8(m)),
{
    lemma_encode_all_bytes(encode_utf8(m));
}

// ---------------------------------------------------------------------------
// tuples: the elements one after the other

impl<A: Wire, B: Wire> Wire for (A, B) {
    type Model = (A::Model, B::Model);

    open spec fn model(&self) -> (A::Model, B::Model) {
        (self.0.model(), self.1.model())
    }

    open spec fn wf_model(m: (A::Model, B::Model)) -> bool {
        A::wf_model(m.0) && B::wf_model(m.1)
    }

    open spec fn encoding(m: (A::Model, B::Model)) -> Seq<u8> {
        A::encoding(m.0) + B::encoding(m.1)
    }

    open spec fn decode_prefix(b: Seq<u8>) -> Decoded<(A::Model, B::Model)> {
        match A::decode_prefix(b) {
            Ok((a, i)) => match B::decode_prefix(b.skip(i as int)) {
                Ok((c, j)) => Ok(((a, c), i + j)),
                Err(e) => Err(e),
            },
            Err(e) => Err(e),
        }
    }

    fn send(&self, out: &mut Vec<u8>) {
        self.0.send(out);
        self.1.send(out);
        assert(final(out)@ =~= old(out)@ + Self::encoding(self.model()));
    }

    fn pull(bytes: &[u8], pos: usize) -> (r: Pulled<(A, B)>) {
        let (a, p1) = A::pull(bytes, pos)?;
        proof {
            A::lemma_decode_bounds(bytes@.skip(pos as int));
            assert(bytes@.skip(pos as int).skip(p1 - pos) =~= bytes@.skip(p1 as int));
        }
        let (c, p2) = B::pull(bytes, p1)?;
        Ok(((a, c), p2))
    }

    proof fn lemma_decode_encode(m: (A::Model, B::Model), rest: Seq<u8>) {
        let x = Self::encoding(m) + rest;
        A::lemma_decode_encode(m.0, B::encoding(m.1) + rest);
        B::lemma_decode_encode(m.1, rest);
        assert(x =~= A::encoding(m.0) + (B::encoding(m.1) + rest));
        assert(x.skip(A::encoding(m.0).len() as int) =~= B::encoding(m.1) + rest);
    }

    proof fn lemma_decode_bounds(b: Seq<u8>) {
        A::lemma_decode_bounds(b);
        if let Ok((a, i)) = A::decode_prefix(b) {
            B::lemma_decode_bounds(b.skip(i as int));
        }
    }
}

impl<A: Wire, B: Wire, C: Wire> Wire for (A, B, C) {
    type Model = (A::Model, B::Model, C::Model);

    open spec fn model(&self) -> (A::Model, B::Model, C::Model) {
        (self.0.model(), self.1.model(), self.2.model())
    }

    open spec fn wf_model(m: (A::Model, B::Model, C::Model)) -> bool {
        A::wf_model(m.0) && B::wf_model(m.1) && C::wf_model(m.2)
    }

    open spec fn encoding(m: (A::Model, B::Model, C::Model)) -> Seq<u8> {
        A::encoding(m.0) + B::encoding(m.1) + C::encoding(m.2)
    }

    open spec fn decode_prefix(b: Seq<u8>) -> Decoded<(A::Model, B::Model, C::Model)> {
        match A::decode_prefix(b) {
            Ok((a, i)) => match B::decode_prefix(b.skip(i as int)) {
                Ok((c, j)) => match C::decode_prefix(b.skip((i + j) as int)) {
                    Ok((d, k)) => Ok(((a, c, d), i + j + k)),
                    Err(e) => Err(e),
                },
                Err(e) => Err(e),
            },
            Err(e) => Err(e),
        }
    }

    fn send(&self, out: &mut Vec<u8>) {
        self.0.send(out);
        self.1.send(out);
        self.2.send(out);
        assert(final(out)@ =~= old(out)@ + Self::encoding(self.model()));
    }

    fn pull(bytes: &[u8], pos: usize) -> (r: Pulled<(A, B, C)>) {
        let (a, p1) = A::pull(bytes, pos)?;
        proof {
            A::lemma_decode_bounds(bytes@.skip(pos as int));
            assert(bytes@.skip(pos as int).skip(p1 - pos) =~= bytes@.skip(p1 as int));
        }
        let (c, p2) = B::pull(bytes, p1)?;
        proof {
            B::lemma_decode_bounds(bytes@.skip(p1 as int));
            assert(bytes@.skip(pos as int).skip(p2 - pos) =~= bytes@.skip(p2 as int));
        }
        let (d, p3) = C::pull(bytes, p2)?;
        Ok(((a, c, d), p3))
    }

    proof fn lemma_decode_encode(m: (A::Model, B::Model, C::Model), rest: Seq<u8>) {
        let x = Self::encoding(m) + rest;
        A::lemma_decode_encode(m.0, B::encoding(m.1) + C::encoding(m.2) + rest);
        B::lemma_decode_encode(m.1, C::encoding(m.2) + rest);
        C::lemma_decode_encode(m.2, rest);
        assert(x =~= A::encoding(m.0) + (B::encoding(m.1) + C::encoding(m.2) + rest));
        assert(x.skip(A::encoding(m.0).len() as int) =~= B::encoding(m.1) + (C::encoding(m.2) + rest));
        assert(x.skip((A::encoding(m.0).len() + B::encoding(m.1).len()) as int) =~= C::encoding(m.2) + rest);
    }

    proof fn lemma_decode_bounds(b: Seq<u8>) {
        A::lemma_decode_bounds(b);
        if let Ok((a, i)) = A::decode_prefix(b) {
            B::lemma_decode_bounds(b.skip(i as int));
            if let Ok((c, j)) = B::decode_prefix(b.skip(i as int)) {
                C::lemma_decode_bounds(b.skip((i + j) as int));
            }
        }
    }
}

/// Byte `k` of `be32(v)` is bits `24 - 8k` up of `v`: the most significant byte first.
proof fn lemma_be32_bytes(v: u32)
    ensures
        be32(v).len() == 4,
        forall|k: int| 0 <= k < 4 ==> #[trigger] be32(v)[k] == (v >> ((24 - 8 * k) as u32)) as u8,
{
    let hi = (v >> 16u32) as u16;
    let lo = v as u16;
    assert(be32(v) =~= seq![(hi >> 8u16) as u8, hi as u8, (lo >> 8u16) as u8, lo as u8]);
    assert(((((v >> 16u32) as u16) >> 8u16) as u8 == (v >> 24u32) as u8) && ((((v >> 16u32) as u16))
        as u8 == (v >> 16u32) as u8) && ((((v as u16) >> 8u16) as u8) == (v >> 8u32) as u8) && (((v
        as u16) as u8) == (v >> 0u32) as u8)) by (bit_vector);
    assert forall|k: int| 0 <= k < 4 implies #[trigger] be32(v)[k] == (v >> ((24 - 8 * k) as u32)) as u8 by {
        if k == 0 {
        } else if k == 1 {
        } else if k == 2 {
        } else {
        }
    }
}

/// Byte `k` of `be64(v)` is bits `56 - 8k` up of `v`: the most significant byte first.
pub proof fn lemma_be64_bytes(v: u64)
    ensures
        be64(v).len() == 8,
        forall|k: int| 0 <= k < 8 ==> #[trigger] be64(v)[k] == (v >> ((56 - 8 * k) as u64)) as u8,
{
    let hi = (v >> 32u64) as u32;
    let lo = v as u32;
    lemma_be32_bytes(hi);
    lemma_be32_bytes(lo);
    assert(((hi >> 24u32) as u8 == (v >> 56u64) as u8) && ((hi >> 16u32) as u8 == (v >> 48u64) as u8)
        && ((hi >> 8u32) as u8 == (v >> 40u64) as u8) && ((hi >> 0u32) as u8 == (v >> 32u64) as u8)
        && ((lo >> 24u32) as u8 == (v >> 24u64) as u8) && ((lo >> 16u32) as u8 == (v >> 16u64) as u8)
        && ((lo >> 8u32) as u8 == (v >> 8u64) as u8) && ((lo >> 0u32) as u8 == (v >> 0u64) as u8))
        by (bit_vector)
        requires
            hi == (v >> 32u64) as u32,
            lo == v as u32,
    ;
    assert forall|k: int| 0 <= k < 8 implies #[trigger] be64(v)[k] == (v >> ((56 - 8 * k) as u64)) as u8 by {
        if k < 4 {
            assert(be64(v)[k] == be32(hi)[k]);
            assert(be32(hi)[k] == (hi >> ((24 - 8 * k) as u32)) as u8);
            if k == 0 {
            } else if k == 1 {
            } else if k == 2 {
            } else {
            }
        } else {
            assert(be64(v)[k] == be32(lo)[k - 4]);
            assert(be32(lo)[k - 4] == (lo >> ((24 - 8 * (k - 4)) as u32)) as u8);
            if k == 4 {
            } else if k == 5 {
            } else if k == 6 {
            } else {
            }
        }
    }
}

/// Byte `k` of `be128(v)` is bits `120 - 8k` up of `v`: the most significant byte first.
proof fn lemma_be128_bytes(v: u128)
    ensures
        be128(v).len() == 16,
        forall|k: int| 0 <= k < 16 ==> #[trigger] be128(v)[k] == (v >> ((120 - 8 * k) as u128)) as u8,
{
    let hi = (v >> 64u128) as u64;
    let lo = v as u64;
    lemma_be64_bytes(hi);
    lemma_be64_bytes(lo);
    assert(((hi >> 56u64) as u8 == (v >> 120u128) as u8)
        && ((hi >> 48u64) as u8 == (v >> 112u128) as u8)
        && ((hi >> 40u64) as u8 == (v >> 104u128) as u8)
        && ((hi >> 32u64) as u8 == (v >> 96u128) as u8)
        && ((hi >> 24u64) as u8 == (v >> 88u128) as u8)
        && ((hi >> 16u64) as u8 == (v >> 80u128) as u8)
        && ((hi >> 8u64) as u8 == (v >> 72u128) as u8)
        && ((hi >> 0u64) as u8 == (v >> 64u128) as u8))
        by (bit_vector)
        requires
            hi == (v >> 64u128) as u64,
    ;
    assert(((lo >> 56u64) as u8 == (v >> 56u128) as u8)
        && ((lo >> 48u64) as u8 == (v >> 48u128) as u8)
        && ((lo >> 40u64) as u8 == (v >> 40u128) as u8)
        && ((lo >> 32u64) as u8 == (v >> 32u128) as u8)
        && ((lo >> 24u64) as u8 == (v >> 24u128) as u8)
        && ((lo >> 16u64) as u8 == (v >> 16u128) as u8)
        && ((lo >> 8u64) as u8 == (v >> 8u128) as u8)
        && ((lo >> 0u64) as u8 == (v >> 0u128) as u8))
        by (bit_vector)
        requires
            lo == v as u64,
    ;
    assert forall|k: int| 0 <= k < 16 implies #[trigger] be128(v)[k] == (v >> ((120 - 8 * k) as u128)) as u8 by {
        if k < 8 {
            assert(be128(v)[k] == be64(hi)[k]);
            assert(be64(hi)[k] == (hi >> ((56 - 8 * k) as u64)) as u8);
            if k == 0 {
            } else if k == 1 {
            } else if k == 2 {
            } else if k == 3 {
            } else if k == 4 {
            } else if k == 5 {
            } else if k == 6 {
            } else {
            }
        } else {
            assert(be128(v)[k] == be64(lo)[k - 8]);
            assert(be64(lo)[k - 8] == (lo >> ((56 - 8 * (k - 8)) as u64)) as u8);
            if k - 8 == 0 {
            } else if k - 8 == 1 {
            } else if k - 8 == 2 {
            } else if k - 8 == 3 {
            } else if k - 8 == 4 {
            } else if k - 8 == 5 {
            } else if k - 8 == 6 {
            } else {
            }
        }
    }
}

/// Integers of two bytes go on the wire most significant byte first, the
/// signed ones as the bytes of their two's complement.
pub proof fn lemma_wire_16_big_endian(u: u16, i: i16)
    ensures
        <u16 as Wire>::encoding(u) == seq![(u >> 8u16) as u8, u as u8],
        <i16 as Wire>::encoding(i) == seq![((i as u16) >> 8u16) as u8, (i as u16) as u8],
{
}

/// Integers of four bytes go on the wire most significant byte first, the
/// signed ones as the bytes of their two's complement.
pub proof fn lemma_wire_32_big_endian(u: u32, i: i32)
    ensures
        <u32 as Wire>::encoding(u).len() == 4,
        forall|k: int| 0 <= k < 4 ==> #[trigger] <u32 as Wire>::encoding(u)[k] == (u >> ((24 - 8 * k) as u32)) as u8,
        <i32 as Wire>::encoding(i).len() == 4,
        forall|k: int| 0 <= k < 4 ==> #[trigger] <i32 as Wire>::encoding(i)[k] == ((i as u32) >> ((24 - 8 * k) as u32)) as u8,
{
    lemma_be32_bytes(u);
    lemma_be32_bytes(i as u32);
}

/// Integers of eight bytes go on the wire most significant byte first, the
/// signed ones as the bytes of their two's complement.
pub proof fn lemma_wire_64_big_endian(u: u64, i: i64)
    ensures
        <u64 as Wire>::encoding(u).len() == 8,
        forall|k: int| 0 <= k < 8 ==> #[trigger] <u64 as Wire>::encoding(u)[k] == (u >> ((56 - 8 * k) as u64)) as u8,
        <i64 as Wire>::encoding(i).len() == 8,
        forall|k: int| 0 <= k < 8 ==> #[trigger] <i64 as Wire>::encoding(i)[k] == ((i as u64) >> ((56 - 8 * k) as u64)) as u8,
{
    lemma_be64_bytes(u);
    lemma_be64_bytes(i as u64);
}

/// Integers of sixteen bytes go on the wire most significant byte first, the
/// signed ones as the bytes of their two's complement.
pub proof fn lemma_wire_128_big_endian(u: u128, i: i128)
    ensures
        <u128 as Wire>::encoding(u).len() == 16,
        forall|k: int| 0 <= k < 16 ==> #[trigger] <u128 as Wire>::encoding(u)[k] == (u >> ((120 - 8 * k) as u128)) as u8,
        <i128 as Wire>::encoding(i).len() == 16,
        forall|k: int| 0 <= k < 16 ==> #[trigger] <i128 as Wire>::encoding(i)[k] == ((i as u128) >> ((120 - 8 * k) as u128)) as u8,
{
    lemma_be128_bytes(u);
    lemma_be128_bytes(i as u128);
}

} // verus!
