//! The handshake that secures a stream with the Noise protocol. Both peers
//! send a random number; the lower number initiates (equal numbers are drawn
//! again). Then each sends its public key, and the Noise handshake messages
//! are exchanged: the initiator writes first, the responder answers.
//!
//! The handshake is a state machine: `step` takes what was received and
//! gives what to send next. The caller moves the bytes.
use vstd::prelude::*;
use vstd::string::*;

use crate::noise::{
    build_initiator, build_responder, default_noise_name, dh_public_key, generate_keypair,
    parse_noise_params, NoiseCipher, NoiseConfig, NoiseState,
};
use crate::error::{Error, ErrorKindSer};

verus! {

/// Which side of the Noise handshake a peer takes.
#[derive(Clone, Copy, Debug, PartialEq, Eq, Structural)]
pub enum Role {
    Initiator,
    Responder,
}

/// The role that a peer takes when it drew `local` and the other peer drew
/// `peer`: none when the numbers are equal (both draw again), the responder
/// when its number is the greater, the initiator when it is the smaller.
pub open spec fn role_for(local: u64, peer: u64) -> Option<Role> {
    if local == peer {
        None
    } else if local > peer {
        Some(Role::Responder)
    } else {
        Some(Role::Initiator)
    }
}

/// Decides the role of this peer from the two numbers drawn.
pub fn decide_role(local: u64, peer: u64) -> (r: Option<Role>)
    ensures
        r == role_for(local, peer),
{
    if local == peer {
        None
    } else if local > peer {
        Some(Role::Responder)
    } else {
        Some(Role::Initiator)
    }
}

/// Two peers that drew different numbers take opposite roles: exactly one
/// of them initiates.
pub proof fn lemma_roles_complement(a: u64, b: u64)
    requires
        a != b,
    ensures
        role_for(a, b) is Some,
        role_for(b, a) is Some,
        role_for(a, b) != role_for(b, a),
        role_for(a, b) == Some(Role::Initiator) <==> role_for(b, a) == Some(Role::Responder),
{
}

/// Draws a random number. Calls `rand::random::<u64>`; the number depends on
/// chance, so nothing is stated of it.
#[verifier::external_body]
fn random_u64() -> u64 {
    rand::random::<u64>()
}

/// The size of the buffer that handshake messages are written and read in.
pub const HANDSHAKE_BUFFER_LEN: usize = 256;

/// Where a handshake stands.
pub enum NoiseHandshake {
    /// this peer sent `local` and waits for the peer's number
    Negotiating { params: NoiseConfig, local: u64 },
    /// this peer sent its public key and waits for the peer's
    ExchangingKeys { params: NoiseConfig, role: Role, private: Vec<u8> },
    /// the initiator sent its message and waits for the answer
    AwaitingResponse { hs: NoiseState },
    /// the responder waits for the initiator's message
    AwaitingInitiation { hs: NoiseState },
    /// the responder's answer is being sent; the handshake ends once it is
    Answering { hs: NoiseState },
}

/// What the peer sent, or that the last message went out.
pub enum HandshakeEvent {
    PeerNumber(u64),
    PeerKey(Vec<u8>),
    PeerMessage(Vec<u8>),
    MessageSent,
}

/// What the caller has to do next.
pub enum HandshakeAction {
    /// send this number, then receive the peer's number
    SendNumber(u64),
    /// send this public key, then receive the peer's key
    SendKey(Vec<u8>),
    /// send this handshake message; then, as the initiator, receive the answer,
    /// and as the responder, report `MessageSent`
    SendMessage(Vec<u8>),
    /// receive the peer's handshake message
    Receive,
    /// the stream is secured with this cipher
    Finish(NoiseCipher),
}

/// What one step of the handshake gives: `r` is what `step` may return for
/// the state `s` and the event `event`.
pub open spec fn steps_to(
    s: NoiseHandshake,
    event: HandshakeEvent,
    r: crate::error::Result<(Option<NoiseHandshake>, HandshakeAction)>,
) -> bool {
    &&& (r matches Err(e) ==> e.kind == ErrorKindSer::Other)
    // negotiation: equal numbers draw again; else the public key of a fresh
    // key pair is sent and its private key kept
    &&& (s matches NoiseHandshake::Negotiating { local, params } ==> (
    event matches HandshakeEvent::PeerNumber(peer) ==> {
        &&& role_for(local, peer) is None ==> (r matches Ok((next, action)) && next matches Some(
            NoiseHandshake::Negotiating { local: l2, params: p2 },
        ) && p2 == params && action == HandshakeAction::SendNumber(l2))
        &&& role_for(local, peer) matches Some(role) ==> (r matches Ok((next, action)) ==> next matches Some(
            NoiseHandshake::ExchangingKeys { role: r2, params: p2, private: p },
        ) && r2 == role && p2 == params && p@.len() == 32 && (action matches HandshakeAction::SendKey(k)
            && k@.len() == 32 && k@ == dh_public_key(p@)))
        &&& role_for(local, peer) is Some && params.is_default() ==> r is Ok
    }))
    // key exchange: the initiator writes first, the responder waits; both are
    // built with the private key kept and the peer's key, and the message the
    // initiator sends is the one it wrote
    &&& (s matches NoiseHandshake::ExchangingKeys { role, private, params } ==> (
    event matches HandshakeEvent::PeerKey(remote) ==> {
        &&& (private@.len() > 32 || remote@.len() > 56) ==> r is Err
        &&& (private@.len() <= 32 && remote@.len() <= 56 && params.is_default()) ==> r is Ok
        &&& r matches Ok((next, action)) ==> (role == Role::Initiator ==> (next matches Some(
            NoiseHandshake::AwaitingResponse { hs },
        ) && hs.local_key() == private@ && hs.remote_key() == remote@ && hs.is_initiator()
            && hs.is_default() == params.is_default() && hs.read().len() == 0 && (
        action matches HandshakeAction::SendMessage(m) && hs.written() == seq![m@])))
        &&& r matches Ok((next, action)) ==> (role == Role::Responder ==> (next matches Some(
            NoiseHandshake::AwaitingInitiation { hs },
        ) && hs.local_key() == private@ && hs.remote_key() == remote@ && !hs.is_initiator()
            && hs.is_default() == params.is_default() && hs.written().len() == 0 && hs.read().len()
            == 0 && action is Receive))
    }))
    // the initiator is done once it has read the answer, which the session
    // keeps with the message it wrote
    &&& (s matches NoiseHandshake::AwaitingResponse { hs } ==> (
    event matches HandshakeEvent::PeerMessage(m) ==> (r matches Ok((next, action)) ==> next is None
        && (action matches HandshakeAction::Finish(c) && c.sealed().len() == 0 && c.opened().len()
        == 0 && c.refused().len() == 0 && c.may_send() == hs.is_default() && c.handshake_written()
        == hs.written() && c.handshake_read() == hs.read().push(m@)))))
    // the responder reads the initiator's message and answers it with the
    // message it writes, keeping its keys
    &&& (s matches NoiseHandshake::AwaitingInitiation { hs } ==> (
    event matches HandshakeEvent::PeerMessage(m) ==> (r matches Ok((next, action)) ==> next matches Some(
        NoiseHandshake::Answering { hs: h2 },
    ) && h2.local_key() == hs.local_key() && h2.remote_key() == hs.remote_key() && h2.is_initiator()
        == hs.is_initiator() && h2.is_default() == hs.is_default() && h2.read() == hs.read().push(m@)
        && (action matches HandshakeAction::SendMessage(a) && h2.written() == hs.written().push(a@)))))
    // and is done once the answer is out, which the default pattern always
    // allows after one message each way
    &&& (s matches NoiseHandshake::Answering { hs } ==> (r matches Ok((next, action)) ==> next is None
        && (action matches HandshakeAction::Finish(c) && c.sealed().len() == 0 && c.opened().len() == 0
        && c.refused().len() == 0 && c.may_send() == hs.is_default() && c.handshake_written()
        == hs.written() && c.handshake_read() == hs.read())))
    &&& (s matches NoiseHandshake::Answering { hs } ==> (hs.is_default() && hs.written().len() == 1
        && hs.read().len() == 1 ==> r is Ok))
}

/// The two sides of one handshake hold each other's messages: when the
/// initiator's message is what the responder receives, and the responder's
/// answer is what the initiator receives, the session of each side holds as
/// read exactly what the other holds as written.
pub proof fn lemma_transcripts_pair(
    i_keys: NoiseHandshake,
    i_peer_key: Vec<u8>,
    i_sent: NoiseHandshake,
    ci: NoiseCipher,
    r_keys: NoiseHandshake,
    r_peer_key: Vec<u8>,
    r_waiting: NoiseHandshake,
    r_answering: NoiseHandshake,
    cr: NoiseCipher,
    m1: Vec<u8>,
    m2: Vec<u8>,
)
    requires
        i_keys matches NoiseHandshake::ExchangingKeys { role: Role::Initiator, .. },
        r_keys matches NoiseHandshake::ExchangingKeys { role: Role::Responder, .. },
        steps_to(
            i_keys,
            HandshakeEvent::PeerKey(i_peer_key),
            Ok((Some(i_sent), HandshakeAction::SendMessage(m1))),
        ),
        steps_to(i_sent, HandshakeEvent::PeerMessage(m2), Ok((None, HandshakeAction::Finish(ci)))),
        steps_to(r_keys, HandshakeEvent::PeerKey(r_peer_key), Ok((Some(r_waiting), HandshakeAction::Receive))),
        steps_to(
            r_waiting,
            HandshakeEvent::PeerMessage(m1),
            Ok((Some(r_answering), HandshakeAction::SendMessage(m2))),
        ),
        steps_to(r_answering, HandshakeEvent::MessageSent, Ok((None, HandshakeAction::Finish(cr)))),
    ensures
        ci.handshake_written() == seq![m1@],
        ci.handshake_read() == seq![m2@],
        ci.handshake_written() == cr.handshake_read(),
        ci.handshake_read() == cr.handshake_written(),
{
}

impl NoiseHandshake {
    /// Whether `e` is the event that this state waits for.
    pub open spec fn expects(&self, e: &HandshakeEvent) -> bool {
        match self {
            NoiseHandshake::Negotiating { .. } => e is PeerNumber,
            NoiseHandshake::ExchangingKeys { .. } => e is PeerKey,
            NoiseHandshake::AwaitingResponse { .. } => e is PeerMessage,
            NoiseHandshake::AwaitingInitiation { .. } => e is PeerMessage,
            NoiseHandshake::Answering { .. } => e is MessageSent,
        }
    }

    /// Whether `e` is the event that this state waits for.
    pub fn accepts(&self, e: &HandshakeEvent) -> (r: bool)
        ensures
            r == self.expects(e),
    {
        match self {
            NoiseHandshake::Negotiating { .. } => matches!(e, HandshakeEvent::PeerNumber(_)),
            NoiseHandshake::ExchangingKeys { .. } => matches!(e, HandshakeEvent::PeerKey(_)),
            NoiseHandshake::AwaitingResponse { .. } => matches!(e, HandshakeEvent::PeerMessage(_)),
            NoiseHandshake::AwaitingInitiation { .. } => matches!(
                e,
                HandshakeEvent::PeerMessage(_)
            ),
            NoiseHandshake::Answering { .. } => matches!(e, HandshakeEvent::MessageSent),
        }
    }

    /// Starts a handshake with the given parameters: draws this peer's number.
    pub fn start(params: snow::params::NoiseParams) -> (r: (NoiseHandshake, HandshakeAction))
        ensures
            r.0 matches NoiseHandshake::Negotiating { local, params: p } && p.params() == params
                && r.1 == HandshakeAction::SendNumber(local),
    {
        NoiseHandshake::start_with(NoiseConfig::new(params))
    }

    /// Starts a handshake with the given configuration: draws this peer's number.
    pub fn start_with(config: NoiseConfig) -> (r: (NoiseHandshake, HandshakeAction))
        ensures
            r.0 matches NoiseHandshake::Negotiating { local, params: p } && p == config && r.1
                == HandshakeAction::SendNumber(local),
    {
        let local = random_u64();
        (NoiseHandshake::Negotiating { params: config, local }, HandshakeAction::SendNumber(local))
    }

    /// Starts a handshake with the default parameters,
    /// `Noise_NN_25519_ChaChaPoly_BLAKE2s`.
    pub fn start_default() -> (r: crate::error::Result<(NoiseHandshake, HandshakeAction)>)
        ensures
            r matches Ok((s, a)) && s matches NoiseHandshake::Negotiating { local, params }
                && params.is_default() && a == HandshakeAction::SendNumber(local),
    {
        let name = "Noise_NN_25519_ChaChaPoly_BLAKE2s";
        proof {
            reveal_strlit("Noise_NN_25519_ChaChaPoly_BLAKE2s");
            assert(name@ =~= default_noise_name());
        }
        match parse_noise_params(name) {
            Some(config) => Ok(NoiseHandshake::start_with(config)),
            None => Err(Error::new(ErrorKindSer::InvalidInput, "unknown noise parameters")),
        }
    }

    /// Moves the handshake on with what was received. Gives the next state,
    /// none once the handshake is over, and what to do. A key longer than
    /// the Noise library takes (32 bytes for this side's private key, 56 for
    /// the peer's public key) fails the handshake with `Other`, and so does
    /// any failure of the Noise library. With the default parameters the
    /// Noise library fails nothing that this side does on its own: once the
    /// numbers differ a key pair is made, keys of the right length build the
    /// handshake and its first message, and the answer that ends it goes
    /// out; only a message of the peer that does not read can stop it.
    pub fn step(self, event: HandshakeEvent) -> (r: crate::error::Result<
        (Option<NoiseHandshake>, HandshakeAction),
    >)
        requires
            self.expects(&event),
        ensures
            steps_to(self, event, r),
    {
        match self {
            NoiseHandshake::Negotiating { params, local } => {
                let peer = match event {
                    HandshakeEvent::PeerNumber(p) => p,
                    _ => {
                        return Err(Error::new(ErrorKindSer::Other, "unexpected handshake event"));
                    },
                };
                match decide_role(local, peer) {
                    None => {
                        let local = random_u64();
                        Ok(
                            (
                                Some(NoiseHandshake::Negotiating { params, local }),
                                HandshakeAction::SendNumber(local),
                            ),
                        )
                    },
                    Some(role) => match generate_keypair(&params) {
                        Some((private, public)) => Ok(
                            (
                                Some(NoiseHandshake::ExchangingKeys { params, role, private }),
                                HandshakeAction::SendKey(public),
                            ),
                        ),
                        None => Err(Error::new(ErrorKindSer::Other, "failed to generate a keypair")),
                    },
                }
            },
            NoiseHandshake::ExchangingKeys { params, role, private } => {
                let remote = match event {
                    HandshakeEvent::PeerKey(k) => k,
                    _ => {
                        return Err(Error::new(ErrorKindSer::Other, "unexpected handshake event"));
                    },
                };
                if private.len() > 32 || remote.len() > 56 {
                    return Err(Error::new(ErrorKindSer::Other, "invalid key length"));
                }
                match role {
                    Role::Initiator => {
                        let mut hs = match build_initiator(&params, private.as_slice(), remote.as_slice()) {
                            Some(hs) => hs,
                            None => {
                                return Err(Error::new(ErrorKindSer::Other, "failed to build the initiator"));
                            },
                        };
                        let mut buf = vec![0u8; HANDSHAKE_BUFFER_LEN];
                        match hs.write_message(&mut buf) {
                            Some(len) => {
                                buf.truncate(len);
                                assert(hs.written() =~= seq![buf@]);
                                Ok(
                                    (
                                        Some(NoiseHandshake::AwaitingResponse { hs }),
                                        HandshakeAction::SendMessage(buf),
                                    ),
                                )
                            },
                            None => Err(Error::new(ErrorKindSer::Other, "failed to write the handshake")),
                        }
                    },
                    Role::Responder => match build_responder(&params, private.as_slice(), remote.as_slice()) {
                        Some(hs) => Ok(
                            (Some(NoiseHandshake::AwaitingInitiation { hs }), HandshakeAction::Receive),
                        ),
                        None => Err(Error::new(ErrorKindSer::Other, "failed to build the responder")),
                    },
                }
            },
            NoiseHandshake::AwaitingResponse { mut hs } => {
                let msg = match event {
                    HandshakeEvent::PeerMessage(m) => m,
                    _ => {
                        return Err(Error::new(ErrorKindSer::Other, "unexpected handshake event"));
                    },
                };
                let mut buf = vec![0u8; HANDSHAKE_BUFFER_LEN];
                if hs.read_message(msg.as_slice(), &mut buf).is_none() {
                    return Err(Error::new(ErrorKindSer::Other, "failed to read the handshake"));
                }
                match hs.into_transport() {
                    Some(c) => Ok((None, HandshakeAction::Finish(c))),
                    None => Err(Error::new(ErrorKindSer::Other, "handshake not finished")),
                }
            },
            NoiseHandshake::AwaitingInitiation { mut hs } => {
                let msg = match event {
                    HandshakeEvent::PeerMessage(m) => m,
                    _ => {
                        return Err(Error::new(ErrorKindSer::Other, "unexpected handshake event"));
                    },
                };
                let mut buf = vec![0u8; HANDSHAKE_BUFFER_LEN];
                if hs.read_message(msg.as_slice(), &mut buf).is_none() {
                    return Err(Error::new(ErrorKindSer::Other, "failed to read the handshake"));
                }
                match hs.write_message(&mut buf) {
                    Some(len) => {
                        buf.truncate(len);
                        Ok(
                            (
                                Some(NoiseHandshake::Answering { hs }),
                                HandshakeAction::SendMessage(buf),
                            ),
                        )
                    },
                    None => Err(Error::new(ErrorKindSer::Other, "failed to write the handshake")),
                }
            },
            NoiseHandshake::Answering { hs } => match hs.into_transport() {
                Some(c) => Ok((None, HandshakeAction::Finish(c))),
                None => Err(Error::new(ErrorKindSer::Other, "handshake not finished")),
            },
        }
    }
}

} // verus!
