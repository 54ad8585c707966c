//! The states of the Noise library, as the library keeps them: a handshake
//! under way remembers, as ghost values, the keys it was built with, and a
//! session remembers every packet handed to snow to be sealed or opened and
//! what snow gave back. Only the trusted calls below extend these records,
//! so what the cipher sends and receives is tied to the calls it made.
use vstd::prelude::*;

verus! {

/// The public key that belongs to a private key, as the Diffie-Hellman
/// function of snow's default resolver (Curve25519) derives it.
pub uninterp spec fn dh_public_key(private: Seq<u8>) -> Seq<u8>;

/// The name of the default Noise parameters.
pub open spec fn default_noise_name() -> Seq<char> {
    seq![
        'N', 'o', 'i', 's', 'e', '_', 'N', 'N', '_', '2', '5', '5', '1', '9', '_', 'C', 'h', 'a',
        'C', 'h', 'a', 'P', 'o', 'l', 'y', '_', 'B', 'L', 'A', 'K', 'E', '2', 's',
    ]
}

/// Noise parameters, with whether they are known to be the default ones
/// (pattern `NN`, Curve25519, ChaChaPoly, BLAKE2s).
pub struct NoiseConfig {
    params: snow::params::NoiseParams,
    default_nn: Ghost<bool>,
}

impl NoiseConfig {
    /// Whether these are known to be the default parameters.
    pub closed spec fn is_default(&self) -> bool {
        self.default_nn@
    }

    /// The parameters themselves.
    pub closed spec fn params(&self) -> snow::params::NoiseParams {
        self.params
    }

    /// Parameters given by the caller; they are not assumed to be the default ones.
    pub fn new(params: snow::params::NoiseParams) -> (c: NoiseConfig)
        ensures
            c.params() == params,
            !c.is_default(),
    {
        NoiseConfig { params, default_nn: Ghost(false) }
    }
}

/// Reads Noise parameters from their name. Calls `str::parse` for
/// `snow::params::NoiseParams`. Its source splits the name at `_` into base,
/// pattern, DH, cipher and hash and accepts each of `Noise`, `NN`, `25519`,
/// `ChaChaPoly` and `BLAKE2s`, so the default name is accepted and gives the
/// default parameters; which other names are accepted is not stated.
#[verifier::external_body]
pub(crate) fn parse_noise_params(name: &str) -> (r: Option<NoiseConfig>)
    ensures
        (r is Some && r.unwrap().is_default()) <==> name@ == default_noise_name(),
{
    match name.parse::<snow::params::NoiseParams>() {
        Ok(params) => Some(NoiseConfig { params, default_nn: Ghost(name@ == default_noise_name()) }),
        Err(_) => None,
    }
}

/// Generates a key pair for the given parameters, private key first. Calls
/// `snow::Builder::generate_keypair`. Its source builds the pair with the
/// parameters' Diffie-Hellman function, of which the default resolver has
/// only Curve25519 (32-byte keys, the public key derived from the private
/// one), so the default parameters always give a pair; the private key is
/// random and not stated.
#[verifier::external_body]
pub(crate) fn generate_keypair(config: &NoiseConfig) -> (r: Option<(Vec<u8>, Vec<u8>)>)
    ensures
        r matches Some((p, q)) ==> p@.len() == 32 && q@.len() == 32 && q@ == dh_public_key(p@),
        config.is_default() ==> r is Some,
{
    snow::Builder::new(config.params.clone()).generate_keypair().ok().map(|k| (k.private, k.public))
}

/// A Noise handshake under way, with the keys it was built with and the
/// handshake messages it wrote and read, in order.
pub struct NoiseState {
    hs: snow::HandshakeState,
    local: Ghost<Seq<u8>>,
    remote: Ghost<Seq<u8>>,
    initiator: Ghost<bool>,
    written: Ghost<Seq<Seq<u8>>>,
    read: Ghost<Seq<Seq<u8>>>,
    default_nn: Ghost<bool>,
}

impl NoiseState {
    /// The private key this side was built with.
    pub closed spec fn local_key(&self) -> Seq<u8> {
        self.local@
    }

    /// The public key of the peer this side was built with.
    pub closed spec fn remote_key(&self) -> Seq<u8> {
        self.remote@
    }

    /// Whether this side was built as the initiator.
    pub closed spec fn is_initiator(&self) -> bool {
        self.initiator@
    }

    /// Whether this handshake is known to run the default parameters.
    pub closed spec fn is_default(&self) -> bool {
        self.default_nn@
    }

    /// The handshake messages this side wrote, in order.
    pub closed spec fn written(&self) -> Seq<Seq<u8>> {
        self.written@
    }

    /// The handshake messages of the peer this side read, in order.
    pub closed spec fn read(&self) -> Seq<Seq<u8>> {
        self.read@
    }

    /// Writes the next handshake message, with an empty payload, into the
    /// front of `message`. Calls `snow::HandshakeState::write_message`, which
    /// writes only within `message` and returns the number of bytes written.
    /// With 32-byte keys no handshake message passes 96 bytes, so a buffer of
    /// 256 bytes holds every one. The bytes depend on fresh keys and are not
    /// stated; the message written is recorded. In the default `NN` pattern
    /// the initiator's first message and the responder's answer, after the
    /// first message was read, are always written.
    #[verifier::external_body]
    pub(crate) fn write_message(&mut self, message: &mut Vec<u8>) -> (r: Option<usize>)
        requires
            old(message)@.len() == 256,
        ensures
            old(self).is_default() && old(self).written().len() == 0 && (if old(self).is_initiator() {
                old(self).read().len() == 0
            } else {
                old(self).read().len() == 1
            }) ==> r is Some,
            final(self).is_default() == old(self).is_default(),
            final(message)@.len() == 256,
            r matches Some(n) ==> n <= 256 && final(self).written() == old(self).written().push(
                final(message)@.subrange(0, n as int),
            ),
            r is None ==> final(self).written() == old(self).written(),
            final(self).read() == old(self).read(),
            final(self).local_key() == old(self).local_key(),
            final(self).remote_key() == old(self).remote_key(),
            final(self).is_initiator() == old(self).is_initiator(),
    {
        self.hs.write_message(&[], message.as_mut_slice()).ok()
    }

    /// Reads a handshake message of the peer. Calls
    /// `snow::HandshakeState::read_message` with `payload` as the buffer for
    /// the message's payload; whether the message is accepted is not stated.
    /// A message accepted is recorded.
    #[verifier::external_body]
    pub(crate) fn read_message(&mut self, message: &[u8], payload: &mut Vec<u8>) -> (r: Option<usize>)
        ensures
            final(payload)@.len() == old(payload)@.len(),
            r is Some ==> final(self).read() == old(self).read().push(message@),
            final(self).is_default() == old(self).is_default(),
            r is None ==> final(self).read() == old(self).read(),
            final(self).written() == old(self).written(),
            final(self).local_key() == old(self).local_key(),
            final(self).remote_key() == old(self).remote_key(),
            final(self).is_initiator() == old(self).is_initiator(),
    {
        self.hs.read_message(message, payload.as_mut_slice()).ok()
    }

    /// Turns a finished handshake into a session. Calls
    /// `snow::HandshakeState::into_transport_mode`, which refuses a handshake
    /// that is not finished. In the default `NN` pattern a side that wrote
    /// one message and read one is finished, and both sides may send. Nothing
    /// has been sealed or opened yet; the session keeps the handshake's
    /// messages.
    #[verifier::external_body]
    pub(crate) fn into_transport(self) -> (r: Option<NoiseCipher>)
        ensures
            self.is_default() && self.written().len() == 1 && self.read().len() == 1 ==> r is Some,
            r matches Some(c) ==> c.sealed() == Seq::<(Seq<u8>, Seq<u8>)>::empty() && c.opened()
                == Seq::<(Seq<u8>, Seq<u8>)>::empty() && c.refused().len() == 0
                && c.handshake_written() == self.written() && c.handshake_read() == self.read()
                && c.may_send() == self.is_default(),
    {
        match self.hs.into_transport_mode() {
            Ok(transport) => Some(NoiseCipher {
                transport,
                sealed: Ghost(Seq::empty()),
                opened: Ghost(Seq::empty()),
                handshake_written: Ghost(self.written@),
                handshake_read: Ghost(self.read@),
                refused: Ghost(Seq::empty()),
                may_send: Ghost(self.default_nn@),
            }),
            Err(_) => None,
        }
    }
}

/// Builds the initiator's side of a handshake. Calls `snow::Builder::new`,
/// `local_private_key`, `remote_public_key` and `build_initiator`. Its source
/// copies the private key into 32 bytes and the remote key into 56, so
/// longer keys are left out. With the default parameters (which need no
/// static key) it always builds; otherwise whether it does is not stated.
#[verifier::external_body]
pub(crate) fn build_initiator(
    config: &NoiseConfig,
    private: &[u8],
    remote: &[u8],
) -> (r: Option<NoiseState>)
    requires
        private@.len() <= 32,
        remote@.len() <= 56,
    ensures
        r matches Some(s) ==> s.local_key() == private@ && s.remote_key() == remote@
            && s.is_initiator() && s.written().len() == 0 && s.read().len() == 0
            && s.is_default() == config.is_default(),
        config.is_default() ==> r is Some,
{
    let builder = snow::Builder::new(config.params.clone());
    match builder.local_private_key(private).remote_public_key(remote).build_initiator() {
        Ok(hs) => Some(NoiseState {
            hs,
            local: Ghost(private@),
            remote: Ghost(remote@),
            initiator: Ghost(true),
            written: Ghost(Seq::empty()),
            read: Ghost(Seq::empty()),
            default_nn: Ghost(config.default_nn@),
        }),
        Err(_) => None,
    }
}

/// Builds the responder's side of a handshake. Calls `snow::Builder::new`,
/// `local_private_key`, `remote_public_key` and `build_responder`, with the
/// same limits on the keys as `build_initiator`.
#[verifier::external_body]
pub(crate) fn build_responder(
    config: &NoiseConfig,
    private: &[u8],
    remote: &[u8],
) -> (r: Option<NoiseState>)
    requires
        private@.len() <= 32,
        remote@.len() <= 56,
    ensures
        r matches Some(s) ==> s.local_key() == private@ && s.remote_key() == remote@
            && !s.is_initiator() && s.written().len() == 0 && s.read().len() == 0
            && s.is_default() == config.is_default(),
        config.is_default() ==> r is Some,
{
    let builder = snow::Builder::new(config.params.clone());
    match builder.local_private_key(private).remote_public_key(remote).build_responder() {
        Ok(hs) => Some(NoiseState {
            hs,
            local: Ghost(private@),
            remote: Ghost(remote@),
            initiator: Ghost(false),
            written: Ghost(Seq::empty()),
            read: Ghost(Seq::empty()),
            default_nn: Ghost(config.default_nn@),
        }),
        Err(_) => None,
    }
}

/// The encryption state of a secured stream, with every packet it sealed
/// (plaintext, sealed packet) and opened (sealed packet, plaintext).
pub struct NoiseCipher {
    transport: snow::TransportState,
    sealed: Ghost<Seq<(Seq<u8>, Seq<u8>)>>,
    opened: Ghost<Seq<(Seq<u8>, Seq<u8>)>>,
    handshake_written: Ghost<Seq<Seq<u8>>>,
    handshake_read: Ghost<Seq<Seq<u8>>>,
    refused: Ghost<Seq<Seq<u8>>>,
    may_send: Ghost<bool>,
}

impl NoiseCipher {
    /// The transport state that this cipher seals and opens with.
    pub closed spec fn transport_state(&self) -> snow::TransportState {
        self.transport
    }

    /// The packets sealed so far: each plaintext and the sealed packet that
    /// snow gave for it, in order.
    pub closed spec fn sealed(&self) -> Seq<(Seq<u8>, Seq<u8>)> {
        self.sealed@
    }

    /// The packets opened so far: each sealed packet and the plaintext that
    /// snow gave for it, in order.
    pub closed spec fn opened(&self) -> Seq<(Seq<u8>, Seq<u8>)> {
        self.opened@
    }

    /// The handshake messages this side wrote before the session began.
    pub closed spec fn handshake_written(&self) -> Seq<Seq<u8>> {
        self.handshake_written@
    }

    /// The handshake messages of the peer this side read before the session began.
    pub closed spec fn handshake_read(&self) -> Seq<Seq<u8>> {
        self.handshake_read@
    }

    /// The packets snow refused to open, in order.
    pub closed spec fn refused(&self) -> Seq<Seq<u8>> {
        self.refused@
    }

    /// Whether this side is known to be allowed to send: a session of the
    /// default `NN` pattern, which is not one-way.
    pub closed spec fn may_send(&self) -> bool {
        self.may_send@
    }

    /// Wraps the transport state that a finished handshake gives.
    pub fn new(transport: snow::TransportState) -> (c: NoiseCipher)
        ensures
            c.transport_state() == transport,
            c.sealed() == Seq::<(Seq<u8>, Seq<u8>)>::empty(),
            c.opened() == Seq::<(Seq<u8>, Seq<u8>)>::empty(),
            c.handshake_written().len() == 0,
            c.handshake_read().len() == 0,
            c.refused().len() == 0,
            !c.may_send(),
    {
        NoiseCipher {
            transport,
            sealed: Ghost(Seq::empty()),
            opened: Ghost(Seq::empty()),
            handshake_written: Ghost(Seq::empty()),
            handshake_read: Ghost(Seq::empty()),
            refused: Ghost(Seq::empty()),
            may_send: Ghost(false),
        }
    }

    /// Seals `payload[start..end]` into the front of `message`.
    /// Calls `snow::TransportState::write_message`. Its source refuses a payload
    /// whose sealed size would pass 65535 bytes or the size of `message`, and
    /// otherwise (with the ciphers of snow's default resolver, the only ones this
    /// library builds) writes the payload and a 16-byte tag and returns their
    /// length. It refuses nothing else of a session that may send (it is not
    /// the responder of a one-way pattern) while its counter, one step per
    /// packet sealed, is below `u64::MAX`. The sealed bytes depend on the
    /// session's key and nonce and are not stated; they are recorded as what
    /// was sealed for that payload.
    #[verifier::external_body]
    pub(crate) fn transport_write(
        &mut self,
        payload: &[u8],
        start: usize,
        end: usize,
        message: &mut Vec<u8>,
    ) -> (r: core::result::Result<usize, ()>)
        requires
            start <= end <= payload@.len(),
            end - start + 16 <= usize::MAX,
        ensures
            final(message)@.len() == old(message)@.len(),
            r matches Ok(n) ==> n == end - start + 16 && n <= 65535 && n <= old(message)@.len()
                && final(self).sealed() == old(self).sealed().push(
                (payload@.subrange(start as int, end as int), final(message)@.subrange(0, n as int)),
            ),
            r is Err ==> final(self).sealed() == old(self).sealed(),
            final(self).opened() == old(self).opened(),
            final(self).handshake_written() == old(self).handshake_written(),
            final(self).handshake_read() == old(self).handshake_read(),
            end - start + 16 > 65535 ==> r is Err,
            end - start + 16 > old(message)@.len() ==> r is Err,
            old(self).may_send() && end - start + 16 <= 65535 && end - start + 16 <= old(
                message,
            )@.len() && old(self).sealed().len() < u64::MAX ==> r is Ok,
            final(self).refused() == old(self).refused(),
            final(self).may_send() == old(self).may_send(),
    {
        self.transport.write_message(&payload[start..end], message.as_mut_slice()).map_err(|_| ())
    }

    /// Opens the sealed packet `payload[start..end]` into the front of
    /// `message`. Calls `snow::TransportState::read_message`. Its source
    /// refuses a packet longer than 65535 bytes, shorter than its 16-byte tag,
    /// or whose plaintext does not fit `message`, and one whose tag does not
    /// verify; otherwise it writes the plaintext (the packet less its tag) to
    /// the front of `message` and returns its length. The plaintext depends on
    /// the session's key and nonce and is not stated; it is recorded as what
    /// was opened from that packet, and a packet refused is recorded as such.
    #[verifier::external_body]
    pub(crate) fn transport_read(
        &mut self,
        payload: &[u8],
        start: usize,
        end: usize,
        message: &mut Vec<u8>,
    ) -> (r: core::result::Result<usize, ()>)
        requires
            start <= end <= payload@.len(),
        ensures
            final(message)@.len() == old(message)@.len(),
            r matches Ok(n) ==> end - start >= 16 && end - start <= 65535 && n == end - start - 16
                && n <= old(message)@.len() && final(self).opened() == old(self).opened().push(
                (payload@.subrange(start as int, end as int), final(message)@.subrange(0, n as int)),
            ),
            r is Err ==> final(self).opened() == old(self).opened(),
            final(self).sealed() == old(self).sealed(),
            final(self).handshake_written() == old(self).handshake_written(),
            final(self).handshake_read() == old(self).handshake_read(),
            end - start < 16 ==> r is Err,
            end - start > 65535 ==> r is Err,
            r is Err ==> final(self).refused() == old(self).refused().push(
                payload@.subrange(start as int, end as int),
            ),
            r is Ok ==> final(self).refused() == old(self).refused(),
            final(self).may_send() == old(self).may_send(),
    {
        self.transport.read_message(&payload[start..end], message.as_mut_slice()).map_err(|_| ())
    }
}

} // verus!
