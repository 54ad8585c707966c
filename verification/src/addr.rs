//! Addresses of providers and services, and their text form:
//! `protocol@address` for a provider, `protocol@address://id` for a service.
//! ```text
//! tcp@127.0.0.1:8080      itcp@127.0.0.1:8080
//! unix@mysocket.sock      iunix@mysocket.sock
//! wss@example.com:443     ws@example.com:80
//! tcp@127.0.0.1:8080://my_service
//! ```
use vstd::prelude::*;
use vstd::string::*;
use vstd::utf8::encode_utf8;

use crate::error::{Error, ErrorKindSer};
use crate::text::{
    is_word, lemma_rfind_char_found, lemma_rfind_sep_found, rfind_char, rfind_char_in, rfind_sep,
    rfind_sep_in, sep_at,
};

verus! {

/// A socket address as plain values: an IPv4 address and a port, or an IPv6
/// address (its eight segments), a port, a flow label and a scope id.
#[derive(Clone, Copy, Debug, PartialEq, Eq, Hash, PartialOrd, Ord)]
pub enum SocketAddrRepr {
    V4 { octets: [u8; 4], port: u16 },
    V6 { segments: [u16; 8], port: u16, flowinfo: u32, scope_id: u32 },
}

/// What `str::parse::<core::net::SocketAddr>` gives for some text.
pub uninterp spec fn std_socket_addr_parse(s: Seq<char>) -> Option<SocketAddrRepr>;

/// The text that `core::net::SocketAddr` is displayed as.
pub uninterp spec fn std_socket_addr_text(a: SocketAddrRepr) -> Seq<char>;

/// Parses a socket address. Calls `str::parse::<core::net::SocketAddr>` and
/// converts what it gives.
#[verifier::external_body]
pub(crate) fn parse_socket_addr(s: &str) -> (r: Option<SocketAddrRepr>)
    ensures
        r == std_socket_addr_parse(s@),
{
    match s.parse::<core::net::SocketAddr>() {
        Ok(core::net::SocketAddr::V4(a)) => Some(SocketAddrRepr::V4 { octets: a.ip().octets(), port: a.port() }),
        Ok(core::net::SocketAddr::V6(a)) => Some(
            SocketAddrRepr::V6 { segments: a.ip().segments(), port: a.port(), flowinfo: a.flowinfo(), scope_id: a.scope_id() },
        ),
        Err(_) => None,
    }
}

/// Displays a socket address. Converts it to `core::net::SocketAddr` and calls
/// its `to_string`.
#[verifier::external_body]
pub(crate) fn socket_addr_text(a: &SocketAddrRepr) -> (r: String)
    ensures
        r@ == std_socket_addr_text(*a),
{
    let std_addr = match *a {
        SocketAddrRepr::V4 { octets, port } => core::net::SocketAddr::from((octets, port)),
        SocketAddrRepr::V6 { segments, port, flowinfo, scope_id } => core::net::SocketAddr::V6(
            core::net::SocketAddrV6::new(core::net::Ipv6Addr::from(segments), port, flowinfo, scope_id),
        ),
    };
    std_addr.to_string()
}

/// The text that `Debug` writes for a string: quoted, with escapes.
pub uninterp spec fn str_debug_text(s: Seq<char>) -> Seq<char>;

/// The `Debug` text of a string. Calls `format!` with `{:?}`.
#[verifier::external_body]
fn debug_text(s: &str) -> (r: String)
    ensures
        r@ == str_debug_text(s@),
{
    format!("{:?}", s)
}

/// The message of an unknown protocol.
pub open spec fn unknown_protocol_message(p: Seq<char>) -> Seq<char> {
    "unexpected protocol "@ + str_debug_text(p)
}

/// The error for an unknown protocol: `InvalidInput`, naming the protocol.
fn unknown_protocol(p: &str) -> (e: Error)
    ensures
        e.kind == ErrorKindSer::InvalidInput,
        e.message@ == unknown_protocol_message(p@),
{
    let mut m = "unexpected protocol ".to_string();
    let d = debug_text(p);
    m.append(d.as_str());
    Error::with_message(ErrorKindSer::InvalidInput, m)
}

/// The kinds of providers, named by the protocol part of an address.
#[derive(Clone, Copy, Debug, PartialEq, Eq, Structural, Hash)]
pub enum AddressType {
    Tcp,
    InsecureTcp,
    Unix,
    InsecureUnix,
    Wss,
    InsecureWss,
}

/// The protocol name of a kind of provider.
pub open spec fn protocol_name(t: AddressType) -> Seq<char> {
    match t {
        AddressType::Tcp => seq!['t', 'c', 'p'],
        AddressType::InsecureTcp => seq!['i', 't', 'c', 'p'],
        AddressType::Unix => seq!['u', 'n', 'i', 'x'],
        AddressType::InsecureUnix => seq!['i', 'u', 'n', 'i', 'x'],
        AddressType::Wss => seq!['w', 's', 's'],
        AddressType::InsecureWss => seq!['w', 's'],
    }
}

/// The kind of provider that a protocol name names.
pub open spec fn protocol_of(p: Seq<char>) -> Option<AddressType> {
    if p == protocol_name(AddressType::Tcp) {
        Some(AddressType::Tcp)
    } else if p == protocol_name(AddressType::InsecureTcp) {
        Some(AddressType::InsecureTcp)
    } else if p == protocol_name(AddressType::Wss) {
        Some(AddressType::Wss)
    } else if p == protocol_name(AddressType::InsecureWss) {
        Some(AddressType::InsecureWss)
    } else if p == protocol_name(AddressType::Unix) {
        Some(AddressType::Unix)
    } else if p == protocol_name(AddressType::InsecureUnix) {
        Some(AddressType::InsecureUnix)
    } else {
        None
    }
}

/// Each kind of provider is read back from its protocol name.
pub proof fn lemma_protocol_roundtrip(t: AddressType)
    ensures
        protocol_of(protocol_name(t)) == Some(t),
        !protocol_name(t).contains('@'),
{
    let n = protocol_name(t);
    assert(protocol_name(AddressType::Tcp) =~= seq!['t', 'c', 'p']);
    if t != AddressType::Tcp {
        assert(n != protocol_name(AddressType::Tcp)) by {
            if n.len() == 3 {
                assert(n[0] != 't' || n[1] != 'c');
            }
        }
    }
    if t != AddressType::InsecureTcp {
        assert(n != protocol_name(AddressType::InsecureTcp)) by {
            if n.len() == 4 {
                assert(n[0] != 'i' || n[1] != 't');
            }
        }
    }
    if t != AddressType::Wss {
        assert(n != protocol_name(AddressType::Wss)) by {
            if n.len() == 3 {
                assert(n[0] != 'w');
            }
        }
    }
    if t != AddressType::InsecureWss {
        assert(n != protocol_name(AddressType::InsecureWss)) by {
            if n.len() == 2 {
                assert(n[0] != 'w' || n[1] != 's');
            }
        }
    }
    if t != AddressType::Unix {
        assert(n != protocol_name(AddressType::Unix)) by {
            if n.len() == 4 {
                assert(n[0] != 'u');
            }
        }
    }
    assert(!n.contains('@')) by {
        if n.contains('@') {
            let j = choose|j: int| 0 <= j < n.len() && n[j] == '@';
        }
    }
}

impl AddressType {
    /// Reads the kind of provider from a protocol name; an unknown name is
    /// refused with `InvalidInput`.
    pub fn from_str(protocol: &str) -> (r: core::result::Result<AddressType, Error>)
        ensures
            match protocol_of(protocol@) {
                Some(t) => r matches Ok(t2) && t2 == t,
                None => r matches Err(e) && e.kind == ErrorKindSer::InvalidInput && e.message@
                    == unknown_protocol_message(protocol@),
            },
    {
        if is_word(protocol, &['t', 'c', 'p']) {
            Ok(AddressType::Tcp)
        } else if is_word(protocol, &['i', 't', 'c', 'p']) {
            Ok(AddressType::InsecureTcp)
        } else if is_word(protocol, &['w', 's', 's']) {
            Ok(AddressType::Wss)
        } else if is_word(protocol, &['w', 's']) {
            Ok(AddressType::InsecureWss)
        } else if is_word(protocol, &['u', 'n', 'i', 'x']) {
            Ok(AddressType::Unix)
        } else if is_word(protocol, &['i', 'u', 'n', 'i', 'x']) {
            Ok(AddressType::InsecureUnix)
        } else {
            Err(unknown_protocol(protocol))
        }
    }

    /// The protocol name of this kind of provider.
    pub fn as_ref(&self) -> (r: &'static str)
        ensures
            r@ == protocol_name(*self),
    {
        match self {
            AddressType::Tcp => {
                proof {
                    reveal_strlit("tcp");
                }
                "tcp"
            },
            AddressType::InsecureTcp => {
                proof {
                    reveal_strlit("itcp");
                }
                "itcp"
            },
            AddressType::Unix => {
                proof {
                    reveal_strlit("unix");
                }
                "unix"
            },
            AddressType::InsecureUnix => {
                proof {
                    reveal_strlit("iunix");
                }
                "iunix"
            },
            AddressType::Wss => {
                proof {
                    reveal_strlit("wss");
                }
                "wss"
            },
            AddressType::InsecureWss => {
                proof {
                    reveal_strlit("ws");
                }
                "ws"
            },
        }
    }
}

/// The address of a provider. Its `Debug` shows the variant and its
/// fields, not the address text, which `to_text` gives.
#[derive(Clone, Debug, PartialEq, Eq, Hash, PartialOrd, Ord)]
pub enum Addr {
    /// tcp provider
    Tcp(SocketAddrRepr),
    /// unix provider
    Unix(String),
    /// unencrypted tcp provider
    InsecureTcp(SocketAddrRepr),
    /// unencrypted unix provider
    InsecureUnix(String),
    /// websocket provider
    Wss(String),
    /// unencrypted websocket provider
    InsecureWss(String),
}

/// What an address stands for.
pub enum AddrModel {
    Tcp(SocketAddrRepr),
    Unix(Seq<char>),
    InsecureTcp(SocketAddrRepr),
    InsecureUnix(Seq<char>),
    Wss(Seq<char>),
    InsecureWss(Seq<char>),
}

impl View for Addr {
    type V = AddrModel;

    open spec fn view(&self) -> AddrModel {
        match self {
            Addr::Tcp(a) => AddrModel::Tcp(*a),
            Addr::Unix(p) => AddrModel::Unix(p@),
            Addr::InsecureTcp(a) => AddrModel::InsecureTcp(*a),
            Addr::InsecureUnix(p) => AddrModel::InsecureUnix(p@),
            Addr::Wss(s) => AddrModel::Wss(s@),
            Addr::InsecureWss(s) => AddrModel::InsecureWss(s@),
        }
    }
}

/// The kind of provider of an address.
pub open spec fn model_type(a: AddrModel) -> AddressType {
    match a {
        AddrModel::Tcp(_) => AddressType::Tcp,
        AddrModel::Unix(_) => AddressType::Unix,
        AddrModel::InsecureTcp(_) => AddressType::InsecureTcp,
        AddrModel::InsecureUnix(_) => AddressType::InsecureUnix,
        AddrModel::Wss(_) => AddressType::Wss,
        AddrModel::InsecureWss(_) => AddressType::InsecureWss,
    }
}

/// The text of the address part (after the `@`).
pub open spec fn payload_text(a: AddrModel) -> Seq<char> {
    match a {
        AddrModel::Tcp(s) => std_socket_addr_text(s),
        AddrModel::Unix(p) => p,
        AddrModel::InsecureTcp(s) => std_socket_addr_text(s),
        AddrModel::InsecureUnix(p) => p,
        AddrModel::Wss(s) => s,
        AddrModel::InsecureWss(s) => s,
    }
}

/// The text form of an address: its protocol, `@`, its address part.
pub open spec fn addr_text(a: AddrModel) -> Seq<char> {
    protocol_name(model_type(a)) + seq!['@'] + payload_text(a)
}

/// The address that the address part `p` gives for a kind of provider.
/// Socket addresses are parsed as the standard library does; paths and
/// websocket addresses are taken as they are.
pub open spec fn payload_addr(t: AddressType, p: Seq<char>) -> core::result::Result<
    AddrModel,
    ErrorKindSer,
> {
    match t {
        AddressType::Tcp => match std_socket_addr_parse(p) {
            Some(a) => Ok(AddrModel::Tcp(a)),
            None => Err(ErrorKindSer::InvalidInput),
        },
        AddressType::InsecureTcp => match std_socket_addr_parse(p) {
            Some(a) => Ok(AddrModel::InsecureTcp(a)),
            None => Err(ErrorKindSer::InvalidInput),
        },
        AddressType::Unix => Ok(AddrModel::Unix(p)),
        AddressType::InsecureUnix => Ok(AddrModel::InsecureUnix(p)),
        AddressType::Wss => Ok(AddrModel::Wss(p)),
        AddressType::InsecureWss => Ok(AddrModel::InsecureWss(p)),
    }
}

/// Reading an address from text: split at the last `@` into protocol and
/// address part; a text without `@`, or with an unknown protocol, or with a
/// socket address that does not parse, is refused with `InvalidInput`.
pub open spec fn addr_from_text(s: Seq<char>) -> core::result::Result<AddrModel, ErrorKindSer> {
    match rfind_char(s, '@') {
        None => Err(ErrorKindSer::InvalidInput),
        Some(i) => match protocol_of(s.take(i)) {
            None => Err(ErrorKindSer::InvalidInput),
            Some(t) => payload_addr(t, s.skip(i + 1)),
        },
    }
}

/// The message of the error that reading the address text `s` gives.
pub open spec fn addr_error_message(s: Seq<char>) -> Seq<char> {
    match rfind_char(s, '@') {
        None => "malformed address"@,
        Some(i) => match protocol_of(s.take(i)) {
            None => unknown_protocol_message(s.take(i)),
            Some(_) => "invalid socket address syntax"@,
        },
    }
}

impl Addr {
    /// Reads an address from its text form.
    pub fn from_str(s: &str) -> (r: core::result::Result<Addr, Error>)
        ensures
            match addr_from_text(s@) {
                Ok(m) => r matches Ok(a) && a@ == m,
                Err(k) => r matches Err(e) && e.kind == k && e.message@ == addr_error_message(s@),
            },
    {
        let n = s.unicode_len();
        let at = match rfind_char_in(s, '@') {
            Some(i) => i,
            None => {
                return Err(Error::new(ErrorKindSer::InvalidInput, "malformed address"));
            },
        };
        let protocol = s.substring_char(0, at);
        let payload = s.substring_char(at + 1, n);
        assert(protocol@ =~= s@.take(at as int));
        assert(payload@ =~= s@.skip(at + 1));
        let ty = match AddressType::from_str(protocol) {
            Ok(t) => t,
            Err(e) => {
                return Err(e);
            },
        };
        match ty {
            AddressType::Tcp => match parse_socket_addr(payload) {
                Some(a) => Ok(Addr::Tcp(a)),
                None => Err(Error::new(ErrorKindSer::InvalidInput, "invalid socket address syntax")),
            },
            AddressType::InsecureTcp => match parse_socket_addr(payload) {
                Some(a) => Ok(Addr::InsecureTcp(a)),
                None => Err(Error::new(ErrorKindSer::InvalidInput, "invalid socket address syntax")),
            },
            AddressType::Unix => Ok(Addr::Unix(payload.to_string())),
            AddressType::InsecureUnix => Ok(Addr::InsecureUnix(payload.to_string())),
            AddressType::Wss => Ok(Addr::Wss(payload.to_string())),
            AddressType::InsecureWss => Ok(Addr::InsecureWss(payload.to_string())),
        }
    }

    /// Creates an address from its text form.
    pub fn new(s: &str) -> (r: core::result::Result<Addr, Error>)
        ensures
            match addr_from_text(s@) {
                Ok(m) => r matches Ok(a) && a@ == m,
                Err(k) => r matches Err(e) && e.kind == k && e.message@ == addr_error_message(s@),
            },
    {
        Addr::from_str(s)
    }

    /// The kind of provider of this address.
    pub fn address_type(&self) -> (t: AddressType)
        ensures
            t == model_type(self@),
    {
        match self {
            Addr::Tcp(_) => AddressType::Tcp,
            Addr::Unix(_) => AddressType::Unix,
            Addr::InsecureTcp(_) => AddressType::InsecureTcp,
            Addr::InsecureUnix(_) => AddressType::InsecureUnix,
            Addr::Wss(_) => AddressType::Wss,
            Addr::InsecureWss(_) => AddressType::InsecureWss,
        }
    }

    /// The text form of this address.
    pub fn to_text(&self) -> (r: String)
        ensures
            r@ == addr_text(self@),
    {
        let ty = self.address_type();
        let mut out = ty.as_ref().to_string();
        out.append("@");
        proof {
            reveal_strlit("@");
        }
        match self {
            Addr::Tcp(a) => {
                let t = socket_addr_text(a);
                out.append(t.as_str());
            },
            Addr::InsecureTcp(a) => {
                let t = socket_addr_text(a);
                out.append(t.as_str());
            },
            Addr::Unix(p) => out.append(p.as_str()),
            Addr::InsecureUnix(p) => out.append(p.as_str()),
            Addr::Wss(p) => out.append(p.as_str()),
            Addr::InsecureWss(p) => out.append(p.as_str()),
        }
        out
    }

    /// Ties this address to a service id.
    pub fn service(self, id: &str) -> (r: ServiceAddr)
        ensures
            r@ == (self@, id@),
    {
        ServiceAddr(self, id.to_string())
    }
}

/// An address is read back from its text form, provided that its address
/// part holds no `@` (a socket address is displayed without one), and that a
/// socket address is read back from its standard text.
pub proof fn lemma_addr_roundtrip(a: AddrModel)
    requires
        !payload_text(a).contains('@'),
        a matches AddrModel::Tcp(s) ==> std_socket_addr_parse(std_socket_addr_text(s)) == Some(
            s,
        ),
        a matches AddrModel::InsecureTcp(s) ==> std_socket_addr_parse(std_socket_addr_text(s))
            == Some(s),
    ensures
        addr_from_text(addr_text(a)) == core::result::Result::<AddrModel, ErrorKindSer>::Ok(a),
{
    let t = model_type(a);
    let p = payload_text(a);
    let name = protocol_name(t);
    let s = addr_text(a);
    lemma_protocol_roundtrip(t);
    assert(s[name.len() as int] == '@');
    assert forall|j: int| name.len() < j < s.len() implies s[j] != '@' by {
        assert(s[j] == p[j - name.len() - 1]);
        if s[j] == '@' {
            assert(p.contains('@'));
        }
    }
    lemma_rfind_char_found(s, '@', name.len() as int);
    assert(s.take(name.len() as int) =~= name);
    assert(s.skip(name.len() + 1 as int) =~= p);
}

/// The address of a service: the address of its provider and its id. Its
/// `Debug` shows the two parts, not the text, which `to_text` gives.
#[derive(Clone, Debug, PartialEq, Eq, Hash, PartialOrd, Ord)]
pub struct ServiceAddr(Addr, String);

impl View for ServiceAddr {
    type V = (AddrModel, Seq<char>);

    closed spec fn view(&self) -> (AddrModel, Seq<char>) {
        (self.0@, self.1@)
    }
}

/// The text form of a service address: the provider's address, `://`, the id.
pub open spec fn service_text(a: (AddrModel, Seq<char>)) -> Seq<char> {
    addr_text(a.0) + seq![':', '/', '/'] + a.1
}

/// Reading a service address: split at the last `://` into address and id;
/// a text without `://` is refused with `InvalidInput`, and so is an address
/// part that does not read as an address.
pub open spec fn service_from_text(s: Seq<char>) -> core::result::Result<
    (AddrModel, Seq<char>),
    ErrorKindSer,
> {
    match rfind_sep(s) {
        None => Err(ErrorKindSer::InvalidInput),
        Some(i) => match addr_from_text(s.take(i)) {
            Ok(a) => Ok((a, s.skip(i + 3))),
            Err(k) => Err(k),
        },
    }
}

/// The message of the error that reading the service address text `s` gives.
pub open spec fn service_error_message(s: Seq<char>) -> Seq<char> {
    match rfind_sep(s) {
        None => "malformed service address"@,
        Some(i) => addr_error_message(s.take(i)),
    }
}

/// The largest id that a service address can hold, in bytes: the size of a
/// `String`, three machine words (ids are kept inline, and a longer one
/// stops the program).
pub open spec fn max_inline_id_bytes() -> nat {
    (3 * (usize::BITS / 8)) as nat
}

/// Whether the id part of a service address text fits.
pub open spec fn id_fits(s: Seq<char>) -> bool {
    rfind_sep(s) matches Some(i) ==> encode_utf8(s.skip(i + 3)).len() <= max_inline_id_bytes()
}

impl ServiceAddr {
    /// Reads a service address from its text form.
    pub fn from_str(s: &str) -> (r: core::result::Result<ServiceAddr, Error>)
        requires
            id_fits(s@),
        ensures
            match service_from_text(s@) {
                Ok(m) => r matches Ok(a) && a@ == m,
                Err(k) => r matches Err(e) && e.kind == k && e.message@ == service_error_message(s@),
            },
    {
        let n = s.unicode_len();
        let sep = match rfind_sep_in(s) {
            Some(i) => i,
            None => {
                return Err(Error::new(ErrorKindSer::InvalidInput, "malformed service address"));
            },
        };
        let addr_part = s.substring_char(0, sep);
        let id = s.substring_char(sep + 3, n);
        assert(addr_part@ =~= s@.take(sep as int));
        assert(id@ =~= s@.skip(sep + 3));
        let id = id.to_string();
        match Addr::from_str(addr_part) {
            Ok(addr) => Ok(ServiceAddr(addr, id)),
            Err(e) => Err(e),
        }
    }

    /// Creates a service address from its text form.
    pub fn new(s: &str) -> (r: core::result::Result<ServiceAddr, Error>)
        requires
            id_fits(s@),
        ensures
            match service_from_text(s@) {
                Ok(m) => r matches Ok(a) && a@ == m,
                Err(k) => r matches Err(e) && e.kind == k && e.message@ == service_error_message(s@),
            },
    {
        ServiceAddr::from_str(s)
    }

    /// The address of the provider.
    pub fn addr(&self) -> (r: &Addr)
        ensures
            r@ == self@.0,
    {
        &self.0
    }

    /// Takes the address of the provider.
    pub fn take_addr(self) -> (r: Addr)
        ensures
            r@ == self@.0,
    {
        self.0
    }

    /// The id of the service.
    pub fn id(&self) -> (r: &str)
        ensures
            r@ == self@.1,
    {
        self.1.as_str()
    }

    /// The text form of this service address.
    pub fn to_text(&self) -> (r: String)
        ensures
            r@ == service_text(self@),
    {
        let mut out = self.0.to_text();
        out.append("://");
        proof {
            reveal_strlit("://");
        }
        out.append(self.1.as_str());
        out
    }
}

/// A service address is read back from its text form, provided that its
/// address is read back from its own, and that the id holds no `://`.
pub proof fn lemma_service_roundtrip(a: (AddrModel, Seq<char>))
    requires
        addr_from_text(addr_text(a.0)) == core::result::Result::<AddrModel, ErrorKindSer>::Ok(a.0),
        forall|j: int| !sep_at(a.1, j),
    ensures
        service_from_text(service_text(a)) == core::result::Result::<
            (AddrModel, Seq<char>),
            ErrorKindSer,
        >::Ok(a),
{
    let head = addr_text(a.0);
    let s = service_text(a);
    let k = head.len() as int;
    assert(sep_at(s, k));
    assert forall|j: int| k < j implies !sep_at(s, j) by {
        if sep_at(s, j) {
            if j == k + 1 {
                assert(s[j] == '/');
            } else if j == k + 2 {
                assert(s[j] == '/');
            } else {
                assert(sep_at(a.1, j - k - 3));
            }
        }
    }
    lemma_rfind_sep_found(s, k);
    assert(s.take(k) =~= head);
    assert(s.skip(k + 3) =~= a.1);
}

} // verus!
