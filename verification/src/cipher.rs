//! Encryption of messages once the Noise handshake is over. A message is cut
//! into packets of at most `PACKET_LEN` bytes, each sealed on its own into a
//! packet 16 bytes longer, and the sealed packets are sent one after the
//! other. A received message is cut into sealed packets of at most
//! `SEALED_PACKET_LEN` bytes, each opened, and the plaintexts put together.
use vstd::prelude::*;

use crate::error::{Error, ErrorKindSer};
pub use crate::noise::NoiseCipher;
use vstd::arithmetic::div_mod::lemma_fundamental_div_mod_converse;

verus! {

/// The largest number of plaintext bytes in one packet: the Noise limit on
/// a message (65535 bytes) less the 16 bytes of the authentication tag.
pub const PACKET_LEN: usize = 65519;

/// The size of a full sealed packet.
pub const SEALED_PACKET_LEN: usize = 65535;

/// The bytes that sealing adds to a packet.
pub const TAG_LEN: usize = 16;

/// The number of pieces of at most `size` bytes that `n` bytes are cut into.
pub open spec fn piece_count(n: nat, size: nat) -> nat {
    if n == 0 || size == 0 {
        0
    } else {
        ((n - 1) as nat / size + 1) as nat
    }
}

/// The `i`-th piece of `b` cut into pieces of `size` bytes, the last one shorter.
pub open spec fn piece(b: Seq<u8>, size: nat, i: int) -> Seq<u8> {
    let s = i * size;
    let e = if s + size <= b.len() {
        s + size
    } else {
        b.len() as int
    };
    b.subrange(s, e)
}

/// The number of packets a message of `n` bytes is cut into.
pub open spec fn packet_count(n: nat) -> nat {
    piece_count(n, 65519)
}

/// The number of bytes that a message of `n` bytes is sent as.
pub open spec fn sealed_len(n: nat) -> nat {
    n + 16 * packet_count(n)
}

/// Byte sequences put one after the other.
pub open spec fn flatten(s: Seq<Seq<u8>>) -> Seq<u8>
    decreases s.len(),
{
    if s.len() == 0 {
        seq![]
    } else {
        flatten(s.drop_last()) + s.last()
    }
}

/// The second parts of pairs: what snow gave back for each packet.
pub open spec fn outputs(h: Seq<(Seq<u8>, Seq<u8>)>) -> Seq<Seq<u8>> {
    h.map_values(|p: (Seq<u8>, Seq<u8>)| p.1)
}

/// Whether `h` goes on from `prior` with packets that are the pieces of `b`
/// of `size` bytes, in order, each handed to snow as it stands, what came
/// back being `delta` bytes longer.
pub open spec fn pieces_handed(
    prior: Seq<(Seq<u8>, Seq<u8>)>,
    h: Seq<(Seq<u8>, Seq<u8>)>,
    b: Seq<u8>,
    size: nat,
    delta: int,
) -> bool {
    &&& h.len() == prior.len() + piece_count(b.len(), size)
    &&& h.take(prior.len() as int) == prior
    &&& handed_from(prior.len() as int, h, b, size, delta)
}

/// Whether the records of `h` from `from` on are the pieces of `b` of `size`
/// bytes, in order, what came back being `delta` bytes longer.
pub open spec fn handed_from(from: int, h: Seq<(Seq<u8>, Seq<u8>)>, b: Seq<u8>, size: nat, delta: int) -> bool {
    forall|j: int|
        from <= j < h.len() ==> (#[trigger] h[j]).0 == piece(b, size, j - from) && h[j].1.len()
            == h[j].0.len() + delta
}

/// A buffer of `n` zero bytes.
fn zeroed(n: usize) -> (v: Vec<u8>)
    ensures
        v@.len() == n,
        forall|i: int| 0 <= i < n ==> #[trigger] v@[i] == 0,
{
    let mut v: Vec<u8> = Vec::new();
    let mut i: usize = 0;
    while i < n
        invariant
            i <= n,
            v@.len() == i,
            forall|j: int| 0 <= j < i ==> #[trigger] v@[j] == 0,
        decreases n - i,
    {
        v.push(0);
        i = i + 1;
    }
    v
}

proof fn lemma_piece_count_full(k: nat, size: nat)
    requires
        size > 0,
    ensures
        piece_count(k * size, size) == k,
{
    if k > 0 {
        assert(k * size >= size) by (nonlinear_arith)
            requires
                k > 0,
                size > 0,
        ;
        assert(k * size - 1 == (k - 1) * size + (size - 1)) by (nonlinear_arith);
        lemma_fundamental_div_mod_converse(k * size - 1, size as int, k - 1, size - 1);
    }
}

proof fn lemma_piece_count_last(k: nat, n: nat, size: nat)
    requires
        size > 0,
        k * size < n <= k * size + size,
    ensures
        piece_count(n, size) == k + 1,
{
    lemma_fundamental_div_mod_converse(n - 1, size as int, k as int, n - 1 - k * size);
}

/// The history grows by one record; the pieces handed so far stay.
proof fn lemma_handed_step(
    prior: Seq<(Seq<u8>, Seq<u8>)>,
    h: Seq<(Seq<u8>, Seq<u8>)>,
    rec: (Seq<u8>, Seq<u8>),
)
    requires
        h.len() >= prior.len(),
        h.take(prior.len() as int) == prior,
    ensures
        h.push(rec).take(prior.len() as int) == prior,
        h.push(rec).skip(prior.len() as int) == h.skip(prior.len() as int).push(rec),
        outputs(h.push(rec).skip(prior.len() as int)).drop_last() == outputs(h.skip(prior.len() as int)),
{
    assert(h.push(rec).take(prior.len() as int) =~= h.take(prior.len() as int));
    assert(h.push(rec).skip(prior.len() as int) =~= h.skip(prior.len() as int).push(rec));
    assert(outputs(h.push(rec).skip(prior.len() as int)).drop_last() =~= outputs(
        h.skip(prior.len() as int),
    ));
}

/// A sealed message never has the length of a last packet too short to hold
/// its tag: what `encrypt_packets` gives is never refused by
/// `decrypt_packets` for its length.
pub proof fn lemma_sealed_len_opens(n: nat)
    ensures
        sealed_len(n) % 65535 == 0 || sealed_len(n) % 65535 >= 16,
{
    if n > 0 {
        let k = ((n - 1) as nat / 65519) as nat;
        let r = (n - k * 65519) as int;
        assert(k * 65519 <= n - 1 < k * 65519 + 65519) by {
            lemma_fundamental_div_mod_converse(
                (n - 1) as int,
                65519,
                k as int,
                ((n - 1) as nat % 65519) as int,
            );
        }
        lemma_piece_count_last(k, n, 65519);
        assert(sealed_len(n) == k * 65535 + r + 16);
        if r == 65519 {
            lemma_fundamental_div_mod_converse(sealed_len(n) as int, 65535, (k + 1) as int, 0);
        } else {
            lemma_fundamental_div_mod_converse(sealed_len(n) as int, 65535, k as int, r + 16);
        }
    }
}

/// Where the `j`-th part of `xs` starts when the parts are put one after
/// the other.
pub open spec fn offset(xs: Seq<Seq<u8>>, j: int) -> nat {
    flatten(xs.take(j)).len()
}

proof fn lemma_flatten_take(xs: Seq<Seq<u8>>, j: int)
    requires
        0 <= j < xs.len(),
    ensures
        flatten(xs.take(j + 1)) == flatten(xs.take(j)) + xs[j],
{
    assert(xs.take(j + 1).drop_last() =~= xs.take(j));
}

proof fn lemma_flatten_prefix(xs: Seq<Seq<u8>>, j: int)
    requires
        0 <= j <= xs.len(),
    ensures
        offset(xs, j) <= flatten(xs).len(),
        flatten(xs).take(offset(xs, j) as int) == flatten(xs.take(j)),
    decreases xs.len(),
{
    if j == xs.len() {
        assert(xs.take(j) =~= xs);
        assert(flatten(xs).take(flatten(xs).len() as int) =~= flatten(xs));
    } else {
        let p = xs.drop_last();
        lemma_flatten_prefix(p, j);
        assert(p.take(j) =~= xs.take(j));
        assert(flatten(xs) == flatten(p) + xs.last());
        assert(flatten(xs).take(offset(xs, j) as int) =~= flatten(p).take(offset(p, j) as int));
    }
}

/// The `j`-th part stands in the joined parts where its offset says.
proof fn lemma_flatten_part(xs: Seq<Seq<u8>>, j: int)
    requires
        0 <= j < xs.len(),
    ensures
        offset(xs, j) + xs[j].len() <= flatten(xs).len(),
        flatten(xs).subrange(offset(xs, j) as int, (offset(xs, j) + xs[j].len()) as int) == xs[j],
{
    lemma_flatten_take(xs, j);
    lemma_flatten_prefix(xs, j + 1);
    let f = flatten(xs);
    let t = flatten(xs.take(j + 1));
    assert(f.subrange(offset(xs, j) as int, (offset(xs, j) + xs[j].len()) as int) =~= t.subrange(
        offset(xs, j) as int,
        t.len() as int,
    ));
}

/// Parts of `size` bytes each start at a multiple of `size`.
proof fn lemma_offset_full(xs: Seq<Seq<u8>>, size: nat, j: int)
    requires
        0 <= j <= xs.len(),
        forall|i: int| 0 <= i < j ==> #[trigger] xs[i].len() == size,
    ensures
        offset(xs, j) == j * size,
    decreases j,
{
    if j == 0 {
        assert(xs.take(0) =~= Seq::<Seq<u8>>::empty());
    } else {
        lemma_offset_full(xs, size, j - 1);
        lemma_flatten_take(xs, j - 1);
        assert((j - 1) * size + size == j * size) by (nonlinear_arith);
    }
}

/// Putting the pieces of `b` one after the other gives `b` back, piece by piece.
proof fn lemma_flatten_pieces(b: Seq<u8>, size: nat, ps: Seq<Seq<u8>>, j: int)
    requires
        size > 0,
        0 <= j <= ps.len(),
        forall|i: int| 0 <= i < j ==> #[trigger] ps[i] == piece(b, size, i),
        j * size <= b.len() + size,
    ensures
        flatten(ps.take(j)) == b.take(if j * size <= b.len() { j * size } else { b.len() as int }),
    decreases j,
{
    if j == 0 {
        assert(ps.take(0) =~= Seq::<Seq<u8>>::empty());
        assert(b.take(0) =~= Seq::<u8>::empty());
        assert(j * size == 0) by (nonlinear_arith)
            requires
                j == 0,
        ;
    } else {
        assert((j - 1) * size + size == j * size) by (nonlinear_arith);
        assert((j - 1) * size <= b.len()) by (nonlinear_arith)
            requires
                j * size <= b.len() + size,
                (j - 1) * size + size == j * size,
        ;
        lemma_flatten_pieces(b, size, ps, j - 1);
        lemma_flatten_take(ps, j - 1);
        assert(ps[j - 1] == piece(b, size, j - 1));
        assert(flatten(ps.take(j - 1)) == b.take((j - 1) * size));
        let e = if j * size <= b.len() { j * size } else { b.len() as int };
        assert(piece(b, size, j - 1) == b.subrange((j - 1) * size, e));
        assert(b.take((j - 1) * size) + b.subrange((j - 1) * size, e) =~= b.take(e));
        assert(flatten(ps.take(j)) == flatten(ps.take(j - 1)) + ps[j - 1]);
        assert(flatten(ps.take(j)) == b.take(e));
    }
}

/// The pieces of a message of `n` bytes, but the last one, are full.
proof fn lemma_piece_full(n: nat, size: nat, j: int)
    requires
        size > 0,
        0 <= j,
        j + 1 < piece_count(n, size),
    ensures
        (j + 1) * size <= n,
{
    let q = (n - 1) as nat / size;
    vstd::arithmetic::div_mod::lemma_fundamental_div_mod((n - 1) as int, size as int);
    assert((j + 1) * size <= q * size) by (nonlinear_arith)
        requires
            j + 1 <= q,
            size > 0,
    ;
    assert(q * size <= n - 1) by (nonlinear_arith)
        requires
            (n - 1) == size * q + (n - 1) as nat % size,
            (n - 1) as nat % size >= 0,
    ;
}

/// The last piece of a message of `n` bytes is not empty and starts after
/// the full ones.
proof fn lemma_piece_last(n: nat, size: nat)
    requires
        size > 0,
        n > 0,
    ensures
        (piece_count(n, size) - 1) * size < n <= piece_count(n, size) * size,
{
    let q = (n - 1) as nat / size;
    let r = (n - 1) as nat % size;
    vstd::arithmetic::div_mod::lemma_fundamental_div_mod((n - 1) as int, size as int);
    assert((q + 1) * size == q * size + size) by (nonlinear_arith);
    assert(q * size == size * q) by (nonlinear_arith);
}

/// Cutting a sealed message at `SEALED_PACKET_LEN` gives back exactly the
/// packets that were sealed: every full piece of `PACKET_LEN` bytes seals
/// to a full sealed packet, and only the last one is shorter.
pub proof fn lemma_sealed_pieces(buf: Seq<u8>, s: Seq<(Seq<u8>, Seq<u8>)>)
    requires
        pieces_handed(Seq::empty(), s, buf, 65519, 16),
    ensures
        piece_count(flatten(outputs(s)).len(), 65535) == s.len(),
        forall|j: int|
            0 <= j < s.len() ==> piece(flatten(outputs(s)), 65535, j) == #[trigger] s[j].1,
{
    let xs = outputs(s);
    let n = s.len();
    assert(s.take(0) =~= Seq::<(Seq<u8>, Seq<u8>)>::empty());
    assert forall|j: int| 0 <= j < n implies #[trigger] s[j].0 == piece(buf, 65519, j) && s[j].1.len()
        == s[j].0.len() + 16 by {
        assert(handed_from(0, s, buf, 65519, 16));
        assert(s[j].0 == piece(buf, 65519, j - 0));
    }
    if n > 0 {
        assert forall|i: int| 0 <= i < n - 1 implies #[trigger] xs[i].len() == 65535 by {
            lemma_piece_full(buf.len(), 65519, i);
            assert(s[i].0 == piece(buf, 65519, i));
        }
        lemma_offset_full(xs, 65535, n - 1);
        lemma_piece_last(buf.len(), 65519);
        assert(s[n - 1].0 == piece(buf, 65519, n - 1));
        let last_len = xs[n - 1].len();
        assert(17 <= last_len <= 65535);
        lemma_flatten_part(xs, n - 1);
        lemma_flatten_prefix(xs, n as int);
        assert(xs.take(n as int) =~= xs);
        lemma_flatten_take(xs, n - 1);
        assert(flatten(xs).len() == (n - 1) * 65535 + last_len);
        lemma_piece_count_last((n - 1) as nat, flatten(xs).len(), 65535);
        assert forall|j: int| 0 <= j < n implies piece(flatten(xs), 65535, j) == #[trigger] s[j].1 by {
            lemma_offset_full(xs, 65535, j);
            lemma_flatten_part(xs, j);
            if j < n - 1 {
                assert(j * 65535 + 65535 <= (n - 1) * 65535);
            }
        }
    } else {
        assert(xs =~= Seq::<Seq<u8>>::empty());
    }
}

/// What an encrypted stream gives back of what was sent, as far as this
/// library decides it: when the sealed message is opened packet by packet,
/// each packet handed to snow is one that was sealed, and if snow opens each
/// sealed packet to its plaintext, the message comes back whole.
pub proof fn lemma_encrypted_round_trip(
    buf: Seq<u8>,
    s: Seq<(Seq<u8>, Seq<u8>)>,
    o: Seq<(Seq<u8>, Seq<u8>)>,
)
    requires
        pieces_handed(Seq::empty(), s, buf, 65519, 16),
        pieces_handed(Seq::empty(), o, flatten(outputs(s)), 65535, -16),
        forall|j: int| 0 <= j < o.len() && o[j].0 == s[j].1 ==> #[trigger] o[j].1 == s[j].0,
    ensures
        o.len() == s.len(),
        forall|j: int| 0 <= j < o.len() ==> #[trigger] o[j].0 == s[j].1,
        flatten(outputs(o)) == buf,
{
    lemma_sealed_pieces(buf, s);
    let n = s.len();
    assert(s.take(0) =~= Seq::<(Seq<u8>, Seq<u8>)>::empty());
    assert(o.take(0) =~= Seq::<(Seq<u8>, Seq<u8>)>::empty());
    assert forall|j: int| 0 <= j < o.len() implies #[trigger] o[j].0 == s[j].1 by {
        assert(handed_from(0, o, flatten(outputs(s)), 65535, -16));
        assert(o[j].0 == piece(flatten(outputs(s)), 65535, j - 0));
    }
    let ps = outputs(o);
    assert forall|i: int| 0 <= i < n implies #[trigger] ps[i] == piece(buf, 65519, i) by {
        assert(handed_from(0, s, buf, 65519, 16));
        assert(s[i].0 == piece(buf, 65519, i - 0));
        assert(o[i].0 == s[i].1);
    }
    if n > 0 {
        lemma_piece_last(buf.len(), 65519);
    }
    lemma_flatten_pieces(buf, 65519, ps, n as int);
    assert(ps.take(n as int) =~= ps);
    assert(buf.take(buf.len() as int) =~= buf);
}

impl NoiseCipher {
    /// Seals `buf[start..end]` into `msg`, which must be 16 bytes longer; the
    /// packet is recorded as sealed, `msg` being what snow gave for it.
    pub fn encrypt_packet_raw(&mut self, buf: &[u8], start: usize, end: usize, msg: &mut Vec<u8>) -> (r:
        crate::error::Result<()>)
        requires
            start <= end <= buf@.len(),
            end - start <= PACKET_LEN,
            old(msg)@.len() == end - start + 16,
        ensures
            final(msg)@.len() == old(msg)@.len(),
            r is Ok ==> final(self).sealed() == old(self).sealed().push(
                (buf@.subrange(start as int, end as int), final(msg)@),
            ),
            r is Err ==> final(self).sealed() == old(self).sealed(),
            final(self).opened() == old(self).opened(),
            r matches Err(e) ==> e.kind == ErrorKindSer::InvalidData,
            old(self).may_send() && old(self).sealed().len() < u64::MAX ==> r is Ok,
            final(self).refused() == old(self).refused(),
            final(self).may_send() == old(self).may_send(),
    {
        match self.transport_write(buf, start, end, msg) {
            Ok(_) => {
                assert(msg@.subrange(0, msg@.len() as int) =~= msg@);
                Ok(())
            },
            Err(_) => Err(Error::new(ErrorKindSer::InvalidData, "failed to encrypt a packet")),
        }
    }

    /// Seals `buf[start..end]` into a new packet, 16 bytes longer.
    pub fn encrypt_packet(&mut self, buf: &[u8], start: usize, end: usize) -> (r: crate::error::Result<
        Vec<u8>,
    >)
        requires
            start <= end <= buf@.len(),
            end - start <= PACKET_LEN,
        ensures
            r matches Ok(v) ==> v@.len() == end - start + 16 && final(self).sealed() == old(
                self,
            ).sealed().push((buf@.subrange(start as int, end as int), v@)),
            r is Err ==> final(self).sealed() == old(self).sealed(),
            final(self).opened() == old(self).opened(),
            r matches Err(e) ==> e.kind == ErrorKindSer::InvalidData,
            old(self).may_send() && old(self).sealed().len() < u64::MAX ==> r is Ok,
            final(self).refused() == old(self).refused(),
            final(self).may_send() == old(self).may_send(),
    {
        let mut msg = zeroed(end - start + 16);
        self.encrypt_packet_raw(buf, start, end, &mut msg)?;
        Ok(msg)
    }

    /// Seals a whole message: cut into packets of `PACKET_LEN` bytes (the
    /// last one shorter), each sealed, the sealed packets put one after the
    /// other. An empty message is sent as nothing. A session that may send
    /// seals every packet while its packet counter stays below `u64::MAX`.
    pub fn encrypt_packets(&mut self, buf: &[u8]) -> (r: crate::error::Result<Vec<u8>>)
        ensures
            r matches Ok(v) ==> {
                &&& pieces_handed(old(self).sealed(), final(self).sealed(), buf@, 65519, 16)
                &&& v@ == flatten(outputs(final(self).sealed().skip(old(self).sealed().len() as int)))
                &&& v@.len() == sealed_len(buf@.len())
            },
            buf@.len() == 0 ==> (r matches Ok(v) && v@.len() == 0),
            r is Err ==> final(self).sealed().take(old(self).sealed().len() as int) == old(
                self,
            ).sealed() && handed_from(old(self).sealed().len() as int, final(self).sealed(), buf@, 65519, 16)
                && final(self).sealed().len() < old(self).sealed().len() + packet_count(buf@.len()),
            final(self).opened() == old(self).opened(),
            r matches Err(e) ==> e.kind == ErrorKindSer::InvalidData,
            old(self).may_send() && old(self).sealed().len() + packet_count(buf@.len()) <= u64::MAX
                ==> r is Ok,
            final(self).refused() == old(self).refused(),
            final(self).may_send() == old(self).may_send(),
    {
        let n = buf.len();
        let mut total: Vec<u8> = Vec::new();
        let mut start: usize = 0;
        let ghost mut k: nat = 0;
        let ghost h0 = self.sealed();
        proof {
            lemma_piece_count_full(0, 65519);
            assert(self.sealed().take(h0.len() as int) =~= h0);
            assert(outputs(self.sealed().skip(h0.len() as int)) =~= Seq::<Seq<u8>>::empty());
        }
        while start < n
            invariant
                n == buf@.len(),
                start <= n,
                start < n ==> start == k * 65519,
                start == n ==> k == packet_count(n as nat),
                k == packet_count(start as nat),
                total@.len() == start + 16 * k,
                self.opened() == old(self).opened(),
                self.refused() == old(self).refused(),
                self.may_send() == old(self).may_send(),
                h0 == old(self).sealed(),
                self.sealed().len() == h0.len() + k,
                self.sealed().take(h0.len() as int) == h0,
                handed_from(h0.len() as int, self.sealed(), buf@, 65519, 16),
                total@ == flatten(outputs(self.sealed().skip(h0.len() as int))),
            decreases n - start,
        {
            let end = if n - start > PACKET_LEN {
                start + PACKET_LEN
            } else {
                n
            };
            let ghost before = self.sealed();
            let mut msg = match self.encrypt_packet(buf, start, end) {
                Ok(m) => m,
                Err(e) => {
                    proof {
                        lemma_piece_last(n as nat, 65519);
                        assert(k < packet_count(n as nat)) by (nonlinear_arith)
                            requires
                                k * 65519 < n,
                                n <= packet_count(n as nat) * 65519,
                        ;
                    }
                    return Err(e);
                },
            };
            let ghost rec = (buf@.subrange(start as int, end as int), msg@);
            proof {
                lemma_handed_step(h0, before, rec);
                assert(piece(buf@, 65519, k as int) == buf@.subrange(start as int, end as int));
                assert(self.sealed()[h0.len() + k as int] == rec);
                assert forall|j: int| h0.len() <= j < self.sealed().len() implies (#[trigger] self.sealed()[j]).0
                    == piece(buf@, 65519, j - h0.len()) && self.sealed()[j].1.len() == self.sealed()[j].0.len()
                    + 16 by {
                    if j < self.sealed().len() - 1 {
                        assert(self.sealed()[j] == before[j]);
                    }
                }
                let outs = outputs(self.sealed().skip(h0.len() as int));
                assert(outs.last() == msg@);
            }
            let ghost prev_total = total@;
            total.append(&mut msg);
            proof {
                if end == start + PACKET_LEN {
                    lemma_piece_count_full(k + 1, 65519);
                } else {
                    lemma_piece_count_last(k, end as nat, 65519);
                }
                k = k + 1;
            }
            start = end;
        }
        proof {
            assert(self.sealed().skip(h0.len() as int).len() == k);
        }
        Ok(total)
    }

    /// Opens a whole received message: cut into sealed packets of
    /// `SEALED_PACKET_LEN` bytes (the last one shorter), each opened, the
    /// plaintexts put one after the other. An empty message opens as nothing.
    /// It fails only where snow refuses a packet, which is then the next piece
    /// of the message.
    pub fn decrypt_packets(&mut self, buf: &[u8]) -> (r: crate::error::Result<Vec<u8>>)
        ensures
            r matches Ok(v) ==> {
                &&& pieces_handed(old(self).opened(), final(self).opened(), buf@, 65535, -16)
                &&& v@ == flatten(outputs(final(self).opened().skip(old(self).opened().len() as int)))
                &&& v@.len() == buf@.len() - 16 * piece_count(buf@.len(), 65535)
            },
            buf@.len() == 0 ==> (r matches Ok(v) && v@.len() == 0),
            buf@.len() % 65535 != 0 && buf@.len() % 65535 < 16 ==> r is Err,
            r is Err ==> final(self).opened().take(old(self).opened().len() as int) == old(
                self,
            ).opened() && handed_from(old(self).opened().len() as int, final(self).opened(), buf@, 65535, -16)
                && final(self).opened().len() < old(self).opened().len() + piece_count(buf@.len(), 65535),
            final(self).sealed() == old(self).sealed(),
            r matches Err(e) ==> e.kind == ErrorKindSer::Other,
            r is Err ==> final(self).refused() == old(self).refused().push(
                piece(buf@, 65535, final(self).opened().len() - old(self).opened().len()),
            ),
            r is Ok ==> final(self).refused() == old(self).refused(),
            final(self).may_send() == old(self).may_send(),
    {
        let n = buf.len();
        let mut msg: Vec<u8> = Vec::new();
        let mut start: usize = 0;
        let ghost mut k: nat = 0;
        let ghost h0 = self.opened();
        proof {
            lemma_piece_count_full(0, 65535);
            assert(self.opened().take(h0.len() as int) =~= h0);
            assert(outputs(self.opened().skip(h0.len() as int)) =~= Seq::<Seq<u8>>::empty());
        }
        while start < n
            invariant
                n == buf@.len(),
                start <= n,
                start < n ==> start == k * 65535,
                start == n ==> k == piece_count(n as nat, 65535),
                k == piece_count(start as nat, 65535),
                start == n && n % 65535 != 0 ==> n % 65535 >= 16,
                msg@.len() == start - 16 * k,
                self.sealed() == old(self).sealed(),
                self.refused() == old(self).refused(),
                self.may_send() == old(self).may_send(),
                h0 == old(self).opened(),
                self.opened().len() == h0.len() + k,
                self.opened().take(h0.len() as int) == h0,
                handed_from(h0.len() as int, self.opened(), buf@, 65535, -16),
                msg@ == flatten(outputs(self.opened().skip(h0.len() as int))),
            decreases n - start,
        {
            let end = if n - start > SEALED_PACKET_LEN {
                start + SEALED_PACKET_LEN
            } else {
                n
            };
            let mut inner = zeroed(end - start);
            let ghost before = self.opened();
            let got = self.transport_read(buf, start, end, &mut inner);
            let len = match got {
                Ok(len) => len,
                Err(_) => {
                    proof {
                        assert(piece(buf@, 65535, k as int) == buf@.subrange(start as int, end as int));
                        if end == n && n % 65535 != 0 && n % 65535 < 16 {
                            lemma_fundamental_div_mod_converse(n as int, 65535, k as int, n - start);
                        }
                        lemma_piece_last(n as nat, 65535);
                        assert(k < piece_count(n as nat, 65535)) by (nonlinear_arith)
                            requires
                                k * 65535 < n,
                                n <= piece_count(n as nat, 65535) * 65535,
                        ;
                    }
                    return Err(Error::new(ErrorKindSer::Other, "failed to decrypt a packet"));
                },
            };
            inner.truncate(len);
            let ghost rec = (buf@.subrange(start as int, end as int), inner@);
            proof {
                lemma_handed_step(h0, before, rec);
                assert(piece(buf@, 65535, k as int) == buf@.subrange(start as int, end as int));
                assert(self.opened()[h0.len() + k as int] == rec);
                assert forall|j: int| h0.len() <= j < self.opened().len() implies (#[trigger] self.opened()[j]).0
                    == piece(buf@, 65535, j - h0.len()) && self.opened()[j].1.len() == self.opened()[j].0.len()
                    - 16 by {
                    if j < self.opened().len() - 1 {
                        assert(self.opened()[j] == before[j]);
                    }
                }
                let outs = outputs(self.opened().skip(h0.len() as int));
                assert(outs.last() == inner@);
            }
            msg.append(&mut inner);
            proof {
                if end == start + SEALED_PACKET_LEN {
                    lemma_piece_count_full(k + 1, 65535);
                } else {
                    lemma_piece_count_last(k, end as nat, 65535);
                    if n % 65535 != 0 {
                        lemma_fundamental_div_mod_converse(n as int, 65535, k as int, n - start);
                    }
                }
                k = k + 1;
            }
            start = end;
        }
        proof {
            assert(self.opened().skip(h0.len() as int).len() == k);
        }
        Ok(msg)
    }
}

} // verus!
