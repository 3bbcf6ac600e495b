//! A server for connections over QUIC and what stands in for it: which backend
//! it runs on, what it does about what comes in, and how it shuts down.
//!
//! The application owns the sockets and performs the handshakes. It reports what
//! happened and is told what to do.

use crate::base16::{decode, encode, hex_bytes, hex_text, is_hex};
use crate::net::SocketAddr;
use crate::text::{joined, same_text, texts};
use hex::FromHexError;
use moq_net::Versions;
use vstd::prelude::*;

verus! {

// Versions

/// `moq_net::Versions`, a list of protocol versions.
#[verifier::external_type_specification]
#[verifier::external_body]
pub struct ExVersions(moq_net::Versions);

/// The wire codes of a list of protocol versions, in order.
pub uninterp spec fn codes(versions: Versions) -> Seq<u64>;

/// Whether a wire code is that of a protocol version: moq-lite 01 to 05, and
/// drafts 14 to 19 of moq-transport.
pub open spec fn is_version(code: u64) -> bool {
    0xff0d_ad01 <= code <= 0xff0d_ad05 || 0xff00_000e <= code <= 0xff00_0013
}

/// The versions that are supported unless others are asked for: moq-lite 04 to
/// 01, then drafts 19 to 14.
pub open spec fn default_codes() -> Seq<u64> {
    seq![
        0xff0d_ad04u64,
        0xff0d_ad03u64,
        0xff0d_ad02u64,
        0xff0d_ad01u64,
        0xff00_0013u64,
        0xff00_0012u64,
        0xff00_0011u64,
        0xff00_0010u64,
        0xff00_000fu64,
        0xff00_000eu64,
    ]
}

/// `Versions::all`: the versions that are supported by default.
#[verifier::external_body]
fn all_versions() -> (r: Versions)
    ensures
        codes(r) == default_codes(),
{
    Versions::all()
}

/// `Versions::from` a list of versions, each by its code: these versions.
#[verifier::external_body]
fn versions_from(wanted: &Vec<u64>) -> (r: Versions)
    requires
        forall|i: int| 0 <= i < wanted@.len() ==> is_version(#[trigger] wanted@[i]),
    ensures
        codes(r) == wanted@,
{
    Versions::from(wanted.iter().map(|c| moq_net::Version::from_code(*c).unwrap()).collect::<Vec<_>>())
}

/// The ALPN by which a version is asked for.
pub open spec fn alpn(code: u64) -> Seq<char> {
    if code == 0xff0d_ad01 || code == 0xff0d_ad02 {
        "moql"@
    } else if code == 0xff0d_ad03 {
        "moq-lite-03"@
    } else if code == 0xff0d_ad04 {
        "moq-lite-04"@
    } else if code == 0xff0d_ad05 {
        "moq-lite-05-wip"@
    } else if code == 0xff00_000e {
        "moq-00"@
    } else if code == 0xff00_000f {
        "moqt-15"@
    } else if code == 0xff00_0010 {
        "moqt-16"@
    } else if code == 0xff00_0011 {
        "moqt-17"@
    } else if code == 0xff00_0012 {
        "moqt-18"@
    } else {
        "moqt-19"@
    }
}

/// The ALPNs of a list of versions, in order and each once.
pub open spec fn alpns(codes: Seq<u64>) -> Seq<Seq<char>>
    decreases codes.len(),
{
    if codes.len() == 0 {
        Seq::empty()
    } else {
        let front = alpns(codes.drop_last());
        if front.contains(alpn(codes.last())) {
            front
        } else {
            front.push(alpn(codes.last()))
        }
    }
}

/// `Versions::alpns`: the ALPNs of the versions, in order and each once.
#[verifier::external_body]
fn alpns_of(versions: &Versions) -> (r: Vec<String>)
    ensures
        texts(r@) == alpns(codes(*versions)),
{
    versions.alpns().into_iter().map(|a| a.to_string()).collect()
}

// Configuration

/// A QUIC implementation.
#[derive(Clone, Copy, Debug, PartialEq, Eq, Structural)]
pub enum QuicBackend {
    Quinn,
    Noq,
    Quiche,
}

/// Server ID for QUIC-LB support.
#[derive(Clone)]
pub struct ServerId(pub Vec<u8>);

impl ServerId {
    /// The number of bytes.
    pub fn len(&self) -> (r: usize)
        ensures
            r == self.0@.len(),
    {
        self.0.len()
    }

    /// The server ID that a hexadecimal text stands for.
    pub fn from_hex(s: &str) -> (r: Result<ServerId, FromHexError>)
        ensures
            r is Ok <==> is_hex(s@),
            r matches Ok(id) ==> id.0@ == hex_bytes(s@),
    {
        match decode(s) {
            Ok(bytes) => Ok(ServerId(bytes)),
            Err(e) => Err(e),
        }
    }

    /// The text that stands for the server ID in logs.
    pub fn debug_text(&self) -> (r: String)
        ensures
            r@ == "QuicLbServerId(\""@ + hex_text(self.0@) + "\")"@,
    {
        let mut out = joined("QuicLbServerId(\"", encode(self.0.as_slice()).as_str());
        out.append("\")");
        out
    }
}

impl std::str::FromStr for ServerId {
    type Err = FromHexError;

    /// The server ID that a hexadecimal text stands for.
    fn from_str(s: &str) -> (r: Result<Self, FromHexError>)
        ensures
            r is Ok <==> is_hex(s@),
            r matches Ok(id) ==> id.0@ == hex_bytes(s@),
    {
        ServerId::from_hex(s)
    }
}

/// Configuration for the server.
#[derive(Clone)]
pub struct ServerConfig {
    /// Listen for UDP packets on the given address, `[::]:443` if not provided:
    /// a socket address, or a DNS `host:port` pair.
    pub bind: Option<String>,
    /// The QUIC backend to use. Chosen from what is compiled in if not
    /// specified.
    pub backend: Option<QuicBackend>,
    /// Server ID to embed in connection IDs for QUIC-LB compatibility.
    pub quic_lb_id: Option<ServerId>,
    /// Number of random nonce bytes in QUIC-LB connection IDs.
    pub quic_lb_nonce: Option<usize>,
    /// IPv4 address that clients should migrate to after the handshake.
    pub preferred_v4: Option<SocketAddr>,
    /// IPv6 address that clients should migrate to after the handshake.
    pub preferred_v6: Option<SocketAddr>,
    /// Maximum number of concurrent QUIC streams per connection.
    pub max_streams: Option<u64>,
    /// The protocol versions to accept, by their wire codes. All supported ones
    /// if there are none.
    pub version: Vec<u64>,
    pub tls: crate::tls::Server,
}

impl ServerConfig {
    /// The versions are versions.
    pub open spec fn wf(self) -> bool {
        forall|i: int| 0 <= i < self.version@.len() ==> is_version(#[trigger] self.version@[i])
    }

    /// The wire codes of the versions to accept.
    pub open spec fn accepted(self) -> Seq<u64> {
        if self.version@.len() == 0 {
            default_codes()
        } else {
            self.version@
        }
    }

    /// The versions to accept: the configured ones, or all if there are none.
    pub fn versions(&self) -> (r: Versions)
        requires
            self.wf(),
        ensures
            codes(r) == self.accepted(),
    {
        if self.version.len() == 0 {
            all_versions()
        } else {
            versions_from(&self.version)
        }
    }

    /// The address to listen on.
    pub fn bind_addr(&self) -> (r: &str)
        ensures
            r@ == (match self.bind {
                Some(addr) => addr@,
                None => "[::]:443"@,
            }),
    {
        match &self.bind {
            Some(addr) => addr.as_str(),
            None => "[::]:443",
        }
    }

    /// The server by this configuration.
    pub fn init(&self, compiled: Compiled) -> (r: Result<Server, ServerError>)
        requires
            self.wf(),
            compiled.can_serve(self.backend),
        ensures
            r is Err <==> self.mtls_unsupported(compiled),
            r matches Err(e) ==> e == ServerError::MtlsQuinnOnly,
            r matches Ok(server) ==> server.serves(*self, compiled),
    {
        Server::new(self, compiled)
    }

    /// Client certificates are asked for, which only the Quinn backend
    /// supports, and another backend is used.
    pub open spec fn mtls_unsupported(self, compiled: Compiled) -> bool {
        self.tls.root@.len() > 0 && compiled.backend_for(self.backend) != QuicBackend::Quinn
    }
}

/// Which QUIC backends are compiled in.
#[derive(Clone, Copy, Debug, PartialEq, Eq, Structural)]
pub struct Compiled {
    pub quinn: bool,
    pub noq: bool,
    pub quiche: bool,
}

impl Compiled {
    /// Whether a backend is compiled in.
    pub open spec fn has(self, backend: QuicBackend) -> bool {
        match backend {
            QuicBackend::Quinn => self.quinn,
            QuicBackend::Noq => self.noq,
            QuicBackend::Quiche => self.quiche,
        }
    }

    /// Whether there is a backend to serve with, and the one that is asked for
    /// is among them.
    pub open spec fn can_serve(self, wanted: Option<QuicBackend>) -> bool {
        match wanted {
            Some(backend) => self.has(backend),
            None => self.quinn || self.noq || self.quiche,
        }
    }

    /// The backend to use: the one that is asked for, else Quinn, else noq, else
    /// quiche.
    pub open spec fn backend_for(self, wanted: Option<QuicBackend>) -> QuicBackend {
        match wanted {
            Some(backend) => backend,
            None => if self.quinn {
                QuicBackend::Quinn
            } else if self.noq {
                QuicBackend::Noq
            } else {
                QuicBackend::Quiche
            },
        }
    }
}

/// What a server can fail with.
#[derive(Clone, Copy, Debug, PartialEq, Eq, Structural)]
pub enum ServerError {
    /// Client certificates are only supported by the Quinn backend.
    MtlsQuinnOnly,
    /// The status code is none of HTTP.
    InvalidStatusCode,
}

// The server

/// A server, by what it listens on.
pub struct Server {
    /// The protocol versions that are accepted.
    pub versions: Versions,
    pub noq: bool,
    pub quinn: bool,
    pub quiche: bool,
    /// Whether there is an iroh endpoint.
    pub iroh: bool,
    /// Whether there is a WebSocket listener.
    pub websocket: bool,
}

/// How long to wait after closing a backend, in milliseconds.
pub const CLOSE_WAIT_MS: u64 = 100;

/// A step of shutting down.
#[derive(Clone, Copy, Debug, PartialEq, Eq, Structural)]
pub enum CloseStep {
    /// Close a QUIC backend, and wait a moment.
    Quic(QuicBackend),
    /// Close the iroh endpoint.
    Iroh,
    /// Drop the WebSocket listener.
    WebSocket,
}

/// Where a connection came in.
#[derive(Clone, Copy, Debug, PartialEq, Eq, Structural)]
pub enum RequestKind {
    Noq,
    Quinn,
    Quiche,
    Iroh,
    WebSocket,
}

/// What happened while waiting for a session.
#[derive(Clone, Copy, Debug, PartialEq, Eq, Structural)]
pub enum AcceptEvent {
    /// A connection came in over QUIC.
    Quic(QuicBackend),
    /// A connection came in over iroh.
    Iroh,
    /// A WebSocket session was established, or not.
    WebSocket { established: bool },
    /// A handshake that was started before succeeded, or not.
    Handshake { succeeded: bool },
    /// The program was told to stop.
    Interrupted,
}

/// What to do about it.
#[derive(Debug)]
pub enum AcceptStep {
    /// Start a handshake that offers these ALPNs, and go on waiting.
    StartHandshake(Vec<String>),
    /// Start a handshake over iroh, and go on waiting.
    StartIroh,
    /// Hand out the WebSocket session.
    WebSocketSession,
    /// Hand out the session whose handshake succeeded.
    HandshakeSession,
    /// Go on waiting.
    Wait,
    /// Shut down, and hand out nothing.
    Shutdown(Vec<CloseStep>),
}

/// Whether a text is one of a list.
fn is_listed(text: &str, list: &Vec<String>) -> (r: bool)
    ensures
        r == texts(list@).contains(text@),
{
    let mut i: usize = 0;
    while i < list.len()
        invariant
            i <= list@.len(),
            forall|k: int| 0 <= k < i ==> (#[trigger] list@[k])@ != text@,
        decreases list@.len() - i,
    {
        if same_text(list[i].as_str(), text) {
            assert(texts(list@)[i as int] == text@);
            return true;
        }
        i += 1;
    }
    proof {
        if texts(list@).contains(text@) {
            let k = texts(list@).index_of(text@);
            assert(list@[k]@ == text@);
        }
    }
    false
}

/// The `i`-th protocol of a client's is supported, and none before it is.
pub open spec fn is_first_common(requested: Seq<String>, supported: Seq<String>, i: int) -> bool {
    &&& 0 <= i < requested.len()
    &&& texts(supported).contains(requested[i]@)
    &&& forall|j: int| 0 <= j < i ==> !texts(supported).contains((#[trigger] requested[j])@)
}

/// Some protocol of a client's is supported.
pub open spec fn has_common(requested: Seq<String>, supported: Seq<String>) -> bool {
    exists|i: int|
        0 <= i < requested.len() && texts(supported).contains((#[trigger] requested[i])@)
}

/// The protocol to speak with a client: the first of those that it asks for that
/// is supported.
pub fn select_protocol(requested: &Vec<String>, supported: &Vec<String>) -> (r: Option<String>)
    ensures
        match r {
            Some(protocol) => exists|i: int|
                {
                    &&& 0 <= i < requested@.len()
                    &&& protocol@ == (#[trigger] requested@[i])@
                    &&& texts(supported@).contains(protocol@)
                    &&& forall|j: int|
                        0 <= j < i ==> !texts(supported@).contains((#[trigger] requested@[j])@)
                },
            None => forall|j: int|
                0 <= j < requested@.len() ==> !texts(supported@).contains(
                    (#[trigger] requested@[j])@,
                ),
        },
        r is None <==> !has_common(requested@, supported@),
        r matches Some(protocol) ==> exists|i: int|
            protocol@ == requested@[i]@ && #[trigger] is_first_common(requested@, supported@, i),
{
    let mut i: usize = 0;
    while i < requested.len()
        invariant
            i <= requested@.len(),
            forall|j: int|
                0 <= j < i ==> !texts(supported@).contains((#[trigger] requested@[j])@),
        decreases requested@.len() - i,
    {
        if is_listed(requested[i].as_str(), supported) {
            let protocol = requested[i].clone();
            assert(protocol@ == requested@[i as int]@);
            assert(is_first_common(requested@, supported@, i as int));
            return Some(protocol);
        }
        i += 1;
    }
    None
}

impl Server {
    /// Whether this is the server by a configuration: it listens on the one
    /// backend that is used.
    pub open spec fn serves(self, config: ServerConfig, compiled: Compiled) -> bool {
        let backend = compiled.backend_for(config.backend);
        &&& codes(self.versions) == config.accepted()
        &&& self.noq == (backend == QuicBackend::Noq)
        &&& self.quinn == (backend == QuicBackend::Quinn)
        &&& self.quiche == (backend == QuicBackend::Quiche)
        &&& !self.iroh
        &&& !self.websocket
    }

    /// It listens on a QUIC backend.
    pub open spec fn has_backend(self) -> bool {
        self.noq || self.quinn || self.quiche
    }

    /// The server by a configuration.
    pub fn new(config: &ServerConfig, compiled: Compiled) -> (r: Result<Server, ServerError>)
        requires
            config.wf(),
            compiled.can_serve(config.backend),
        ensures
            r is Err <==> config.mtls_unsupported(compiled),
            r matches Err(e) ==> e == ServerError::MtlsQuinnOnly,
            r matches Ok(server) ==> server.serves(*config, compiled),
    {
        let backend = match config.backend {
            Some(backend) => backend,
            None => if compiled.quinn {
                QuicBackend::Quinn
            } else if compiled.noq {
                QuicBackend::Noq
            } else {
                QuicBackend::Quiche
            },
        };
        let versions = config.versions();
        if config.tls.root.len() > 0 && backend != QuicBackend::Quinn {
            return Err(ServerError::MtlsQuinnOnly);
        }
        Ok(
            Server {
                versions,
                noq: backend == QuicBackend::Noq,
                quinn: backend == QuicBackend::Quinn,
                quiche: backend == QuicBackend::Quiche,
                iroh: false,
                websocket: false,
            },
        )
    }

    /// Add or remove a WebSocket listener.
    pub fn with_websocket(self, websocket: bool) -> (r: Self)
        ensures
            r == (Server { websocket, ..self }),
    {
        let mut r = self;
        r.websocket = websocket;
        r
    }

    /// Add or remove an iroh endpoint.
    pub fn with_iroh(self, iroh: bool) -> (r: Self)
        ensures
            r == (Server { iroh, ..self }),
    {
        let mut r = self;
        r.iroh = iroh;
        r
    }

    /// The backend that is asked for the certificate fingerprints and for the
    /// local address: noq, else Quinn, else quiche.
    pub fn backend(&self) -> (r: QuicBackend)
        requires
            self.has_backend(),
        ensures
            r == (if self.noq {
                QuicBackend::Noq
            } else if self.quinn {
                QuicBackend::Quinn
            } else {
                QuicBackend::Quiche
            }),
    {
        if self.noq {
            QuicBackend::Noq
        } else if self.quinn {
            QuicBackend::Quinn
        } else {
            QuicBackend::Quiche
        }
    }

    /// The steps of shutting down, in order.
    pub open spec fn close_steps(self) -> Seq<CloseStep> {
        let noq = if self.noq {
            seq![CloseStep::Quic(QuicBackend::Noq)]
        } else {
            Seq::empty()
        };
        let quinn = if self.quinn {
            seq![CloseStep::Quic(QuicBackend::Quinn)]
        } else {
            Seq::empty()
        };
        let quiche = if self.quiche {
            seq![CloseStep::Quic(QuicBackend::Quiche)]
        } else {
            Seq::empty()
        };
        let iroh = if self.iroh {
            seq![CloseStep::Iroh]
        } else {
            Seq::empty()
        };
        let websocket = if self.websocket {
            seq![CloseStep::WebSocket]
        } else {
            Seq::empty()
        };
        noq + quinn + quiche + iroh + websocket
    }

    /// Shut down: close every backend, then the iroh endpoint, then the
    /// WebSocket listener. The latter two are gone afterwards.
    pub fn close(&mut self) -> (r: Vec<CloseStep>)
        ensures
            r@ == old(self).close_steps(),
            *final(self) == (Server { iroh: false, websocket: false, ..*old(self) }),
    {
        let mut steps: Vec<CloseStep> = Vec::new();
        if self.noq {
            steps.push(CloseStep::Quic(QuicBackend::Noq));
        }
        if self.quinn {
            steps.push(CloseStep::Quic(QuicBackend::Quinn));
        }
        if self.quiche {
            steps.push(CloseStep::Quic(QuicBackend::Quiche));
        }
        if self.iroh {
            steps.push(CloseStep::Iroh);
            self.iroh = false;
        }
        if self.websocket {
            steps.push(CloseStep::WebSocket);
            self.websocket = false;
        }
        assert(steps@ =~= old(self).close_steps());
        steps
    }

    /// Decides what to do about what happened while waiting for a session.
    ///
    /// Connections over QUIC and iroh are handed out once their handshake
    /// succeeded; a handshake that fails is passed over.
    pub fn accept(&mut self, event: AcceptEvent) -> (r: AcceptStep)
        ensures
            !(event is Interrupted) ==> *final(self) == *old(self),
            match event {
                AcceptEvent::Iroh => r is StartIroh,
                AcceptEvent::Quic(_) => r matches AcceptStep::StartHandshake(a) && texts(a@)
                    == alpns(codes(old(self).versions)),
                AcceptEvent::WebSocket { established } => if established {
                    r is WebSocketSession
                } else {
                    r is Wait
                },
                AcceptEvent::Handshake { succeeded } => if succeeded {
                    r is HandshakeSession
                } else {
                    r is Wait
                },
                AcceptEvent::Interrupted => {
                    &&& r matches AcceptStep::Shutdown(steps)
                    &&& steps@ == old(self).close_steps()
                    &&& *final(self) == (Server { iroh: false, websocket: false, ..*old(self) })
                },
            },
    {
        match event {
            AcceptEvent::Iroh => AcceptStep::StartIroh,
            AcceptEvent::Quic(_) => AcceptStep::StartHandshake(alpns_of(&self.versions)),
            AcceptEvent::WebSocket { established } => if established {
                AcceptStep::WebSocketSession
            } else {
                AcceptStep::Wait
            },
            AcceptEvent::Handshake { succeeded } => if succeeded {
                AcceptStep::HandshakeSession
            } else {
                AcceptStep::Wait
            },
            AcceptEvent::Interrupted => AcceptStep::Shutdown(self.close()),
        }
    }
}

// Requests

/// An incoming session that can be accepted or rejected.
pub struct Request {
    pub kind: RequestKind,
    /// The URL that the transport reports.
    pub url: Option<String>,
    /// Whether the transport reports a client certificate that chained to a
    /// configured root.
    pub peer_certificate: bool,
}

/// How a session is rejected.
#[derive(Clone, Copy, Debug, PartialEq, Eq, Structural)]
pub enum Rejection {
    /// With this status code.
    Status(u16),
    /// By dropping it: a WebSocket has no status codes at this point.
    Drop,
}

/// `http::StatusCode::from_u16`: whether a number is a status code. Those of
/// three digits are.
#[verifier::external_body]
fn is_status_code(code: u16) -> (r: bool)
    ensures
        r == (100 <= code < 1000),
{
    web_transport_quinn::http::StatusCode::from_u16(code).is_ok()
}

impl Request {
    /// Reject the session, with an HTTP status code where the transport has
    /// them.
    pub fn close(self, code: u16) -> (r: Result<Rejection, ServerError>)
        ensures
            self.kind == RequestKind::WebSocket ==> r == Ok::<Rejection, ServerError>(
                Rejection::Drop,
            ),
            self.kind != RequestKind::WebSocket && 100 <= code < 1000 ==> r == Ok::<
                Rejection,
                ServerError,
            >(Rejection::Status(code)),
            self.kind != RequestKind::WebSocket && !(100 <= code < 1000) ==> r == Err::<
                Rejection,
                ServerError,
            >(ServerError::InvalidStatusCode),
    {
        if self.kind == RequestKind::WebSocket {
            return Ok(Rejection::Drop);
        }
        if is_status_code(code) {
            Ok(Rejection::Status(code))
        } else {
            Err(ServerError::InvalidStatusCode)
        }
    }

    /// The transport (`quic`, `iroh` or `websocket`).
    pub fn transport(&self) -> (r: &'static str)
        ensures
            r@ == (match self.kind {
                RequestKind::Iroh => "iroh"@,
                RequestKind::WebSocket => "websocket"@,
                _ => "quic"@,
            }),
    {
        match self.kind {
            RequestKind::Noq => "quic",
            RequestKind::Quinn => "quic",
            RequestKind::Quiche => "quic",
            RequestKind::Iroh => "iroh",
            RequestKind::WebSocket => "websocket",
        }
    }

    /// The URL provided by the client. A WebSocket provides none.
    pub fn url(&self) -> (r: Option<&str>)
        ensures
            self.kind == RequestKind::WebSocket || self.url is None ==> r is None,
            self.kind != RequestKind::WebSocket ==> (self.url matches Some(url) ==> (r matches Some(u)
                && u@ == url@)),
    {
        if self.kind == RequestKind::WebSocket {
            return None;
        }
        match &self.url {
            Some(url) => Some(url.as_str()),
            None => None,
        }
    }

    /// Whether the peer presented a client certificate that chained to a
    /// configured root. Only the Quinn backend supports that.
    pub fn has_peer_certificate(&self) -> (r: bool)
        ensures
            r == (self.kind == RequestKind::Quinn && self.peer_certificate),
    {
        match self.kind {
            RequestKind::Quinn => self.peer_certificate,
            _ => false,
        }
    }
}

// Laws

/// A server listens on exactly one QUIC backend: the one that it is asked for
/// its fingerprints and its address, and the one that is closed.
pub proof fn law_one_backend(server: Server, config: ServerConfig, compiled: Compiled)
    requires
        compiled.can_serve(config.backend),
        server.serves(config, compiled),
    ensures
        server.has_backend(),
        compiled.has(compiled.backend_for(config.backend)),
        server.close_steps() == seq![CloseStep::Quic(compiled.backend_for(config.backend))],
{
    assert(server.close_steps() =~= seq![CloseStep::Quic(compiled.backend_for(config.backend))]);
}

/// Shutting down a second time closes neither the iroh endpoint nor the
/// WebSocket listener again.
pub proof fn law_closed_once(server: Server)
    ensures
        !(Server { iroh: false, websocket: false, ..server }).close_steps().contains(
            CloseStep::Iroh,
        ),
        !(Server { iroh: false, websocket: false, ..server }).close_steps().contains(
            CloseStep::WebSocket,
        ),
{
}

/// No ALPN is offered twice, and each accepted version can be asked for.
pub proof fn law_alpns_cover_versions(codes: Seq<u64>)
    ensures
        alpns(codes).no_duplicates(),
        forall|i: int| 0 <= i < codes.len() ==> alpns(codes).contains(alpn(#[trigger] codes[i])),
    decreases codes.len(),
{
    if codes.len() > 0 {
        let front = codes.drop_last();
        law_alpns_cover_versions(front);
        let last = alpn(codes.last());
        assert forall|i: int| 0 <= i < codes.len() implies alpns(codes).contains(
            alpn(#[trigger] codes[i]),
        ) by {
            if i < codes.len() - 1 {
                assert(front[i] == codes[i]);
                let k = alpns(front).index_of(alpn(codes[i]));
                assert(alpns(codes)[k] == alpn(codes[i]));
            } else if !alpns(front).contains(last) {
                assert(alpns(codes)[alpns(front).len() as int] == last);
            }
        }
    }
}

/// A server ID reads back from its hexadecimal text.
pub proof fn law_server_id_reads_back(id: ServerId)
    ensures
        is_hex(hex_text(id.0@)),
        hex_bytes(hex_text(id.0@)) == id.0@,
{
    crate::base16::law_hex_reads_back(id.0@);
}

/// A server listens on the backend that is asked for, and otherwise on the first
/// of Quinn, noq and quiche that is compiled in; on it alone, and for the versions
/// that are configured. It cannot be had exactly if client certificates are asked
/// for on another backend than Quinn.
pub proof fn law_servers_listen_as_configured(
    config: &ServerConfig,
    compiled: Compiled,
    r: Result<Server, ServerError>,
    made: Result<Server, ServerError>,
)
    requires
        call_ensures(Server::new, (config, compiled), r),
        call_ensures(ServerConfig::init, (config, compiled), made),
        config.backend is None ==> compiled.quinn || compiled.noq || compiled.quiche,
    ensures
        made is Ok <==> r is Ok,
        r matches Err(e) ==> e == ServerError::MtlsQuinnOnly,
        config.tls.root@.len() == 0 ==> r is Ok,
        config.backend == Some(QuicBackend::Quinn) ==> (r matches Ok(s) && s.quinn && !s.noq
            && !s.quiche),
        config.backend is None && compiled.quinn ==> (r matches Ok(s) && s.quinn && !s.noq
            && !s.quiche),
        config.backend == Some(QuicBackend::Noq) || (config.backend is None && !compiled.quinn
            && compiled.noq) ==> {
            &&& r is Err <==> config.tls.root@.len() > 0
            &&& r matches Ok(s) ==> s.noq && !s.quinn && !s.quiche
        },
        config.backend == Some(QuicBackend::Quiche) || (config.backend is None && !compiled.quinn
            && !compiled.noq) ==> {
            &&& r is Err <==> config.tls.root@.len() > 0
            &&& r matches Ok(s) ==> s.quiche && !s.quinn && !s.noq
        },
        r matches Ok(s) ==> !s.iroh && !s.websocket,
        r matches Ok(s) ==> config.version@.len() > 0 ==> codes(s.versions) == config.version@,
        made matches Ok(t) ==> (r matches Ok(s) ==> t.quinn == s.quinn && t.noq == s.noq && t.quiche
            == s.quiche && codes(t.versions) == codes(s.versions)),
{
}

/// Connections over QUIC and iroh are handed out exactly once their handshake
/// succeeded, and WebSocket sessions once they are established. A connection over
/// QUIC is offered a protocol for every accepted version. Nothing but being told
/// to stop ends the waiting.
pub proof fn law_sessions_are_handed_out(
    server: &mut Server,
    event: AcceptEvent,
    r: AcceptStep,
    i: int,
)
    requires
        call_ensures(Server::accept, (server, event), r),
    ensures
        r is HandshakeSession <==> event == (AcceptEvent::Handshake { succeeded: true }),
        r is WebSocketSession <==> event == (AcceptEvent::WebSocket { established: true }),
        r is Wait <==> event == (AcceptEvent::Handshake { succeeded: false }) || event == (
        AcceptEvent::WebSocket { established: false }),
        r is StartIroh <==> event is Iroh,
        r is StartHandshake <==> event is Quic,
        r is Shutdown <==> event is Interrupted,
        r matches AcceptStep::StartHandshake(offered) ==> 0 <= i < codes(old(server).versions).len()
            ==> texts(offered@).contains(alpn(codes(old(server).versions)[i])),
        r matches AcceptStep::StartHandshake(offered) ==> texts(offered@).no_duplicates(),
        !(event is Interrupted) ==> *final(server) == *old(server),
        event is Interrupted ==> !final(server).iroh && !final(server).websocket,
{
    law_alpns_cover_versions(codes(old(server).versions));
}

proof fn lemma_one_more(steps: Seq<CloseStep>, step: CloseStep)
    ensures
        steps + seq![step] == (steps + Seq::<CloseStep>::empty()).push(step),
        steps + Seq::<CloseStep>::empty() == steps,
{
    assert(steps + Seq::<CloseStep>::empty() =~= steps);
    assert(steps + seq![step] =~= steps.push(step));
}

proof fn lemma_websocket_is_closed_last(server: Server)
    requires
        server.websocket,
    ensures
        server.close_steps() == (Server { websocket: false, ..server }).close_steps().push(
            CloseStep::WebSocket,
        ),
{
    let a = if server.noq {
        seq![CloseStep::Quic(QuicBackend::Noq)]
    } else {
        Seq::empty()
    };
    let b = if server.quinn {
        seq![CloseStep::Quic(QuicBackend::Quinn)]
    } else {
        Seq::empty()
    };
    let c = if server.quiche {
        seq![CloseStep::Quic(QuicBackend::Quiche)]
    } else {
        Seq::empty()
    };
    let d = if server.iroh {
        seq![CloseStep::Iroh]
    } else {
        Seq::empty()
    };
    lemma_one_more(a + b + c + d, CloseStep::WebSocket);
}

proof fn lemma_iroh_is_closed_next(server: Server)
    requires
        server.iroh,
        !server.websocket,
    ensures
        server.close_steps() == (Server { iroh: false, ..server }).close_steps().push(
            CloseStep::Iroh,
        ),
{
    let a = if server.noq {
        seq![CloseStep::Quic(QuicBackend::Noq)]
    } else {
        Seq::empty()
    };
    let b = if server.quinn {
        seq![CloseStep::Quic(QuicBackend::Quinn)]
    } else {
        Seq::empty()
    };
    let c = if server.quiche {
        seq![CloseStep::Quic(QuicBackend::Quiche)]
    } else {
        Seq::empty()
    };
    lemma_one_more(a + b + c, CloseStep::Iroh);
    lemma_one_more(a + b + c + seq![CloseStep::Iroh], CloseStep::Iroh);
    lemma_one_more(a + b + c + Seq::<CloseStep>::empty(), CloseStep::Iroh);
}

proof fn lemma_quiche_is_closed_next(server: Server)
    requires
        server.quiche,
        !server.websocket,
        !server.iroh,
    ensures
        server.close_steps() == (Server { quiche: false, ..server }).close_steps().push(
            CloseStep::Quic(QuicBackend::Quiche),
        ),
{
    let a = if server.noq {
        seq![CloseStep::Quic(QuicBackend::Noq)]
    } else {
        Seq::empty()
    };
    let b = if server.quinn {
        seq![CloseStep::Quic(QuicBackend::Quinn)]
    } else {
        Seq::empty()
    };
    lemma_one_more(a + b, CloseStep::Quic(QuicBackend::Quiche));
    lemma_one_more(a + b + seq![CloseStep::Quic(QuicBackend::Quiche)], CloseStep::Quic(QuicBackend::Quiche));
    lemma_one_more(a + b + Seq::<CloseStep>::empty(), CloseStep::Quic(QuicBackend::Quiche));
    lemma_one_more(a + b + seq![CloseStep::Quic(QuicBackend::Quiche)], CloseStep::Quic(QuicBackend::Quiche));
    lemma_one_more(a + b + Seq::<CloseStep>::empty(), CloseStep::Quic(QuicBackend::Quiche));
}

proof fn lemma_quinn_is_closed_next(server: Server)
    requires
        server.quinn,
        !server.websocket,
        !server.iroh,
        !server.quiche,
    ensures
        server.close_steps() == (Server { quinn: false, ..server }).close_steps().push(
            CloseStep::Quic(QuicBackend::Quinn),
        ),
{
    let a = if server.noq {
        seq![CloseStep::Quic(QuicBackend::Noq)]
    } else {
        Seq::empty()
    };
    lemma_one_more(a, CloseStep::Quic(QuicBackend::Quinn));
    lemma_one_more(a + seq![CloseStep::Quic(QuicBackend::Quinn)], CloseStep::Quic(QuicBackend::Quinn));
    lemma_one_more(a + Seq::<CloseStep>::empty(), CloseStep::Quic(QuicBackend::Quinn));
    lemma_one_more(a + seq![CloseStep::Quic(QuicBackend::Quinn)], CloseStep::Quic(QuicBackend::Quinn));
    lemma_one_more(a + Seq::<CloseStep>::empty(), CloseStep::Quic(QuicBackend::Quinn));
    lemma_one_more(a + seq![CloseStep::Quic(QuicBackend::Quinn)], CloseStep::Quic(QuicBackend::Quinn));
    lemma_one_more(a + Seq::<CloseStep>::empty(), CloseStep::Quic(QuicBackend::Quinn));
}

/// Whether one server listens on something more than another does, and shutting
/// it down closes this after everything else.
pub open spec fn closes_after(
    server: Server,
    other: Server,
    step: CloseStep,
    steps: Seq<CloseStep>,
    fewer: Seq<CloseStep>,
) -> bool {
    let is_more = match step {
        CloseStep::WebSocket => server.websocket && other == (Server { websocket: false, ..server }),
        CloseStep::Iroh => server.iroh && !server.websocket && other == (Server {
            iroh: false,
            ..server
        }),
        CloseStep::Quic(QuicBackend::Quiche) => server.quiche && !server.iroh && !server.websocket
            && other == (Server { quiche: false, ..server }),
        CloseStep::Quic(QuicBackend::Quinn) => server.quinn && !server.quiche && !server.iroh
            && !server.websocket && other == (Server { quinn: false, ..server }),
        CloseStep::Quic(QuicBackend::Noq) => false,
    };
    is_more ==> steps == fewer.push(step)
}

/// Shutting down closes everything that a server listens on, in the order of noq,
/// Quinn, quiche, iroh and WebSocket: what comes later in it is closed after all
/// that a server without it closes.
pub proof fn law_everything_is_closed_in_order(
    server: &mut Server,
    other: &mut Server,
    step: CloseStep,
    r: (Vec<CloseStep>, Vec<CloseStep>),
)
    requires
        call_ensures(Server::close, (server,), r.0),
        call_ensures(Server::close, (other,), r.1),
    ensures
        closes_after(*old(server), *old(other), step, r.0@, r.1@),
{
    let s = *old(server);
    match step {
        CloseStep::WebSocket => if s.websocket {
            lemma_websocket_is_closed_last(s);
        },
        CloseStep::Iroh => if s.iroh && !s.websocket {
            lemma_iroh_is_closed_next(s);
        },
        CloseStep::Quic(QuicBackend::Quiche) => if s.quiche && !s.iroh && !s.websocket {
            lemma_quiche_is_closed_next(s);
        },
        CloseStep::Quic(QuicBackend::Quinn) => if s.quinn && !s.quiche && !s.iroh && !s.websocket {
            lemma_quinn_is_closed_next(s);
        },
        CloseStep::Quic(QuicBackend::Noq) => {},
    }
}

/// Shutting down leaves the iroh endpoint and the WebSocket listener behind, and
/// nothing else.
pub proof fn law_shutting_down(server: &mut Server, r: Vec<CloseStep>)
    requires
        call_ensures(Server::close, (server,), r),
    ensures
        !final(server).iroh,
        !final(server).websocket,
        final(server).quinn == old(server).quinn,
        final(server).noq == old(server).noq,
        final(server).quiche == old(server).quiche,
        final(server).versions == old(server).versions,
{
}

/// A server has the listeners that it is given, and no more; and it is asked for
/// its address on one of the backends that it has.
pub proof fn law_listeners_are_added(
    server: Server,
    on: bool,
    r: (Server, Server),
    asked: &Server,
    backend: QuicBackend,
)
    requires
        call_ensures(Server::with_websocket, (server, on), r.0),
        call_ensures(Server::with_iroh, (server, on), r.1),
        call_ensures(Server::backend, (asked,), backend),
        asked.noq || asked.quinn || asked.quiche,
    ensures
        r.0.websocket == on && r.0.iroh == server.iroh && r.0.quinn == server.quinn,
        r.1.iroh == on && r.1.websocket == server.websocket && r.1.quinn == server.quinn,
        r.0.noq == server.noq && r.1.noq == server.noq,
        r.0.quiche == server.quiche && r.1.quiche == server.quiche,
        r.0.versions == server.versions && r.1.versions == server.versions,
        backend == QuicBackend::Noq ==> asked.noq,
        backend == QuicBackend::Quinn ==> asked.quinn && !asked.noq,
        backend == QuicBackend::Quiche ==> asked.quiche && !asked.noq && !asked.quinn,
{
}

/// A session is rejected with the status code that is given, if it is one and the
/// transport has them.
pub proof fn law_rejections(request: Request, code: u16, r: Result<Rejection, ServerError>)
    requires
        call_ensures(Request::close, (request, code), r),
    ensures
        request.kind == RequestKind::WebSocket <==> r == Ok::<Rejection, ServerError>(
            Rejection::Drop,
        ),
        request.kind != RequestKind::WebSocket ==> (r is Ok <==> 100 <= code <= 999),
        request.kind != RequestKind::WebSocket && r is Ok ==> r->Ok_0 == Rejection::Status(code),
        r matches Err(e) ==> e == ServerError::InvalidStatusCode,
{
}

/// What is known of a request: its transport, its URL where the transport has
/// them, and whether its peer presented a certificate, which only Quinn tells.
pub proof fn law_requests_are_described(
    request: &Request,
    transport: &'static str,
    url: Option<&str>,
    certificate: bool,
)
    requires
        call_ensures(Request::transport, (request,), transport),
        call_ensures(Request::url, (request,), url),
        call_ensures(Request::has_peer_certificate, (request,), certificate),
    ensures
        transport@ == "iroh"@ <==> request.kind == RequestKind::Iroh,
        transport@ == "websocket"@ <==> request.kind == RequestKind::WebSocket,
        transport@ == "quic"@ <==> request.kind == RequestKind::Quinn || request.kind
            == RequestKind::Noq || request.kind == RequestKind::Quiche,
        url is Some <==> request.kind != RequestKind::WebSocket && request.url is Some,
        url matches Some(u) ==> u@ == request.url->Some_0@,
        certificate <==> request.kind == RequestKind::Quinn && request.peer_certificate,
{
    reveal_strlit("iroh");
    reveal_strlit("websocket");
    reveal_strlit("quic");
    assert("iroh"@.len() == 4 && "websocket"@.len() == 9 && "quic"@.len() == 4);
    assert("iroh"@[0] == 'i' && "quic"@[0] == 'q');
}

/// The first protocol of the client's that the server supports is spoken, and
/// none exactly if they have none in common.
pub proof fn law_a_common_protocol_is_spoken(
    requested: &Vec<String>,
    supported: &Vec<String>,
    r: Option<String>,
    i: int,
)
    requires
        call_ensures(select_protocol, (requested, supported), r),
        0 <= i < requested@.len(),
        texts(supported@).contains(requested@[i]@),
        forall|j: int| 0 <= j < i ==> !texts(supported@).contains((#[trigger] requested@[j])@),
    ensures
        r matches Some(protocol) && protocol@ == requested@[i]@,
{
    assert(has_common(requested@, supported@)) by {
        assert(texts(supported@).contains(requested@[i]@));
    }
    let k = choose|k: int|
        r->Some_0@ == requested@[k]@ && #[trigger] is_first_common(requested@, supported@, k);
    assert(is_first_common(requested@, supported@, k));
    if k < i {
        assert(!texts(supported@).contains(requested@[k]@));
    }
    if i < k {
        assert(!texts(supported@).contains(requested@[i]@));
    }
}

/// A server listens where it is told to, and otherwise on port 443 of all
/// addresses; and it accepts the versions that are configured.
pub proof fn law_configured_addresses(config: &ServerConfig, addr: &str, versions: Versions)
    requires
        call_ensures(ServerConfig::bind_addr, (config,), addr),
        call_ensures(ServerConfig::versions, (config,), versions),
    ensures
        config.bind matches Some(bind) ==> addr@ == bind@,
        config.bind is None ==> addr@ == "[::]:443"@,
        config.version@.len() > 0 ==> codes(versions) == config.version@,
        config.version@.len() == 0 ==> codes(versions).len() == 10 && codes(versions).no_duplicates(),
{
}

/// A server ID that is written in hexadecimal is read back byte by byte, and what
/// is not hexadecimal is none.
pub proof fn law_server_ids_are_read(id: ServerId, text: &str, r: Result<ServerId, FromHexError>)
    requires
        call_ensures(ServerId::from_hex, (text,), r),
        text@ == hex_text(id.0@),
    ensures
        r matches Ok(read) && read.0@ == id.0@,
        text@.len() == 2 * id.0@.len(),
{
    law_server_id_reads_back(id);
}

/// A server ID appears in logs in hexadecimal, between quotes, and has as many
/// bytes as it says.
pub proof fn law_server_ids_in_logs(id: &ServerId, text: String, n: usize)
    requires
        call_ensures(ServerId::debug_text, (id,), text),
        call_ensures(ServerId::len, (id,), n),
    ensures
        n == id.0@.len(),
        text@.len() == "QuicLbServerId(\"\")"@.len() + 2 * n,
        hex_bytes(text@.subrange(16, 16 + 2 * n)) == id.0@,
{
    reveal_strlit("QuicLbServerId(\"\")");
    reveal_strlit("QuicLbServerId(\"");
    reveal_strlit("\")");
    crate::base16::law_hex_reads_back(id.0@);
    assert(text@.subrange(16, 16 + 2 * n) =~= hex_text(id.0@));
}

} // verus!
