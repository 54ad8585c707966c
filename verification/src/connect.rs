//! The decisions taken while connecting to a provider: retrying a failed
//! connection, reading the answer to a discovery request, and which kind of
//! channel an address or a handshake leads to.
use vstd::prelude::*;
use vstd::string::*;

use crate::addr::{socket_addr_text, std_socket_addr_text, Addr, AddrModel, SocketAddrRepr};
use crate::routes::Switch;
use crate::discovery::Status;
use crate::error::{Error, ErrorKindSer};

verus! {

/// Number of connection attempts made by `connect` when none is given.
pub const DEFAULT_RETRIES: u32 = 3;

/// Milliseconds waited after a failed attempt when no delay is given.
pub const DEFAULT_RETRY_DELAY_MS: u64 = 10;

/// The retry state of a connection: attempts failed so far, the number of
/// attempts allowed, and the wait after each failure.
pub struct Retry {
    pub attempt: u32,
    pub retries: u32,
    pub time_to_retry: u64,
}

/// What to do after a failed attempt: wait `delay_ms`, then give up or try again.
#[derive(Clone, Copy, Debug, PartialEq, Eq, Structural)]
pub struct RetryDecision {
    pub delay_ms: u64,
    pub give_up: bool,
}

/// Whether the failure that brings the count of failed attempts to
/// `attempt` ends the connection.
pub open spec fn gives_up(attempt: nat, retries: nat) -> bool {
    attempt == retries
}

impl Retry {
    /// A connection that may make `retries` attempts, waiting `time_to_retry`
    /// milliseconds after each failure.
    pub fn new(retries: u32, time_to_retry: u64) -> (r: Retry)
        ensures
            r.attempt == 0,
            r.retries == retries,
            r.time_to_retry == time_to_retry,
    {
        Retry { attempt: 0, retries, time_to_retry }
    }

    /// A connection with the defaults: 3 attempts, 10 ms apart.
    pub fn with_defaults() -> (r: Retry)
        ensures
            r.attempt == 0,
            r.retries == DEFAULT_RETRIES,
            r.time_to_retry == DEFAULT_RETRY_DELAY_MS,
    {
        Retry::new(DEFAULT_RETRIES, DEFAULT_RETRY_DELAY_MS)
    }

    /// Records a failed attempt: wait, count it, and give up once the count
    /// reaches the number of attempts allowed. With 0 attempts allowed the
    /// count never reaches it; the count stops at `u32::MAX`.
    pub fn on_failure(&mut self) -> (d: RetryDecision)
        requires
            old(self).attempt < u32::MAX,
        ensures
            final(self).attempt == old(self).attempt + 1,
            final(self).retries == old(self).retries,
            final(self).time_to_retry == old(self).time_to_retry,
            d.delay_ms == old(self).time_to_retry,
            d.give_up == gives_up(final(self).attempt as nat, old(self).retries as nat),
    {
        self.attempt = self.attempt + 1;
        RetryDecision { delay_ms: self.time_to_retry, give_up: self.attempt == self.retries }
    }
}

/// A connection allowed `retries` attempts (at least one) gives up at the
/// failure of its last attempt and at no earlier one: it makes exactly
/// `retries` attempts.
pub proof fn lemma_retry_attempts(retries: nat, k: nat)
    requires
        retries >= 1,
        1 <= k <= retries,
    ensures
        gives_up(k, retries) <==> k == retries,
{
}

/// The error that a connection gives up with: `Other`, carrying the text of
/// the last attempt's failure.
pub fn give_up_error(cause: &str) -> (e: Error)
    ensures
        e.kind == ErrorKindSer::Other,
        e.message@ == cause@,
{
    Error::new(ErrorKindSer::Other, cause)
}

/// What a connection attempt gives once the provider answered the discovery
/// request: the channel when the service was found, else a `NotFound` error.
pub fn discovery_result(status: Status) -> (r: core::result::Result<(), Error>)
    ensures
        r is Ok <==> status == Status::Found,
        r matches Err(e) ==> e.kind == ErrorKindSer::NotFound,
{
    match status {
        Status::Found => Ok(()),
        Status::NotFound => Err(Error::new(ErrorKindSer::NotFound, "service not found")),
    }
}

/// The answer that a service gives to an introduced channel: `Found` when
/// the channel came through discovery, nothing otherwise.
pub fn introduction_reply(discover: bool) -> (r: Option<Status>)
    ensures
        r == introduction_reply_spec(discover),
{
    if discover {
        Some(Status::Found)
    } else {
        None
    }
}

/// What the provider sends back on a channel introduced by a discovery
/// request, once its path was switched: `NotFound` when no service is at the
/// path; nothing when the channel went to a service (which answers it itself,
/// see `introduction_reply`) or was dropped at a route.
pub fn introduce_reply(s: Switch) -> (r: Option<Status>)
    ensures
        r == introduce_reply_spec(s),
{
    match s {
        Switch::NotFound => Some(Status::NotFound),
        _ => None,
    }
}

/// A discovery request for a path that leads to a service is answered
/// `Found`, by the service; one for a path that leads nowhere is answered
/// `NotFound`, by the provider.
pub proof fn lemma_discovery_answer(s: Switch)
    ensures
        s is Delivered ==> introduce_reply_spec(s) is None && introduction_reply_spec(true) == Some(
            Status::Found,
        ),
        s is NotFound ==> introduce_reply_spec(s) == Some(Status::NotFound),
{
}

/// What `introduce_reply` gives.
pub open spec fn introduce_reply_spec(s: Switch) -> Option<Status> {
    if s is NotFound {
        Some(Status::NotFound)
    } else {
        None
    }
}

/// What `introduction_reply` gives.
pub open spec fn introduction_reply_spec(discover: bool) -> Option<Status> {
    if discover {
        Some(Status::Found)
    } else {
        None
    }
}

/// The url that a websocket connection to a socket address opens: `ws://`
/// and the address as the standard library displays it.
pub fn ws_url(addr: &SocketAddrRepr) -> (r: String)
    ensures
        r@ == seq!['w', 's', ':', '/', '/'] + std_socket_addr_text(*addr),
{
    let mut out = "ws://".to_string();
    proof {
        reveal_strlit("ws://");
    }
    let t = socket_addr_text(addr);
    out.append(t.as_str());
    out
}

/// The backends of a channel.
#[derive(Clone, Copy, Debug, PartialEq, Eq, Structural)]
pub enum ChannelKind {
    Tcp,
    EncryptedAny,
    InsecureTcp,
    InsecureAny,
    Unix,
    InsecureUnix,
    Wss,
    InsecureWss,
}

/// Whether channels of a kind are encrypted.
pub open spec fn kind_is_encrypted(k: ChannelKind) -> bool {
    match k {
        ChannelKind::Tcp | ChannelKind::EncryptedAny | ChannelKind::Unix | ChannelKind::Wss => true,
        _ => false,
    }
}

/// The kind that a channel has once encrypted: an unencrypted backend gets
/// its encrypted counterpart, an encrypted one stays as it is.
pub open spec fn kind_secured(k: ChannelKind) -> ChannelKind {
    match k {
        ChannelKind::InsecureTcp => ChannelKind::Tcp,
        ChannelKind::InsecureAny => ChannelKind::EncryptedAny,
        ChannelKind::InsecureUnix => ChannelKind::Unix,
        ChannelKind::InsecureWss => ChannelKind::Wss,
        other => other,
    }
}

impl ChannelKind {
    /// Whether channels of this kind are encrypted.
    pub fn is_encrypted(self) -> (r: bool)
        ensures
            r == kind_is_encrypted(self),
    {
        match self {
            ChannelKind::Tcp | ChannelKind::EncryptedAny | ChannelKind::Unix | ChannelKind::Wss => true,
            _ => false,
        }
    }

    /// The kind of the channel that encrypting a channel of this kind gives
    /// (what a handshake that asks for encryption leads to).
    pub fn secured(self) -> (r: ChannelKind)
        ensures
            r == kind_secured(self),
    {
        match self {
            ChannelKind::InsecureTcp => ChannelKind::Tcp,
            ChannelKind::InsecureAny => ChannelKind::EncryptedAny,
            ChannelKind::InsecureUnix => ChannelKind::Unix,
            ChannelKind::InsecureWss => ChannelKind::Wss,
            other => other,
        }
    }

    /// Whether a channel of this kind can tell its peer's address: only tcp
    /// and unix channels can; the others are refused with `Other`.
    pub fn supports_addr(self) -> (r: core::result::Result<(), Error>)
        ensures
            r is Ok <==> (self == ChannelKind::Tcp || self == ChannelKind::InsecureTcp || self
                == ChannelKind::Unix || self == ChannelKind::InsecureUnix),
            r matches Err(e) ==> e.kind == ErrorKindSer::Other && e.message@
                == "dynamic channels don't support addresses"@,
    {
        match self {
            ChannelKind::Tcp | ChannelKind::InsecureTcp | ChannelKind::Unix | ChannelKind::InsecureUnix => Ok(()),
            _ => Err(Error::new(ErrorKindSer::Other, "dynamic channels don't support addresses")),
        }
    }
}

/// Encrypting gives an encrypted channel, and encrypting it again changes
/// nothing.
pub proof fn lemma_secured(k: ChannelKind)
    ensures
        kind_is_encrypted(kind_secured(k)),
        kind_secured(kind_secured(k)) == kind_secured(k),
        kind_is_encrypted(k) ==> kind_secured(k) == k,
{
}

/// The kind of channel that connecting to an address gives: encrypted for
/// the encrypted providers, raw for the others.
pub open spec fn addr_channel_kind(a: AddrModel) -> ChannelKind {
    match a {
        AddrModel::Tcp(_) => ChannelKind::Tcp,
        AddrModel::InsecureTcp(_) => ChannelKind::InsecureTcp,
        AddrModel::Unix(_) => ChannelKind::Unix,
        AddrModel::InsecureUnix(_) => ChannelKind::InsecureUnix,
        AddrModel::Wss(_) => ChannelKind::Wss,
        AddrModel::InsecureWss(_) => ChannelKind::InsecureWss,
    }
}

impl Addr {
    /// The kind of channel that connecting to this address gives.
    pub fn channel_kind(&self) -> (k: ChannelKind)
        ensures
            k == addr_channel_kind(self@),
    {
        match self {
            Addr::Tcp(_) => ChannelKind::Tcp,
            Addr::InsecureTcp(_) => ChannelKind::InsecureTcp,
            Addr::Unix(_) => ChannelKind::Unix,
            Addr::InsecureUnix(_) => ChannelKind::InsecureUnix,
            Addr::Wss(_) => ChannelKind::Wss,
            Addr::InsecureWss(_) => ChannelKind::InsecureWss,
        }
    }
}

} // verus!
