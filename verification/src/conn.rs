//! The socket session's connection state, endpoint selection, and TLS
//! configuration decisions.
//!
//! The transport itself lives outside the library; it reports what
//! happened — handshake, accepted emit, error, disconnect — and the
//! connected flag here is a pure function of that history.

use vstd::prelude::*;
use vstd::string::*;
use crate::directory::{ServiceEvent, ServiceEventType, ServiceRegistryConfig};
use crate::error::SocketError;
use crate::strutil::str_eq;

verus! {

// ---------------------------------------------------------------------------
// Configuration.

/// TLS material for the transport; paths are read by the caller.
#[derive(Debug, Clone)]
pub struct TlsConfig {
    pub ca_cert_path: Option<String>,
    pub client_cert_path: Option<String>,
    pub client_key_path: Option<String>,
    pub client_p12_password: Option<String>,
    pub danger_accept_invalid_certs: bool,
}

impl Default for TlsConfig {
    /// No certificates, and certificate verification on.
    fn default() -> (c: TlsConfig)
        ensures
            c.ca_cert_path is None,
            c.client_cert_path is None,
            c.client_key_path is None,
            c.client_p12_password is None,
            !c.danger_accept_invalid_certs,
    {
        TlsConfig {
            ca_cert_path: None,
            client_cert_path: None,
            client_key_path: None,
            client_p12_password: None,
            danger_accept_invalid_certs: false,
        }
    }
}

/// The identity this daemon registers in the directory under.
#[derive(Debug, Clone)]
pub struct DaemonRegistration {
    pub device_id: String,
    pub device_name: String,
    pub platform: String,
    pub version: String,
    pub ttl: u64,
}

/// How the socket session reaches its server.
#[derive(Debug, Clone)]
pub struct SocketConfig {
    pub url: String,
    pub namespace: String,
    pub tls: TlsConfig,
    pub redis: Option<ServiceRegistryConfig>,
    pub daemon_info: Option<DaemonRegistration>,
}

impl Default for SocketConfig {
    /// The local server over TLS, on the daemon namespace.
    fn default() -> (c: SocketConfig)
        ensures
            c.url@ == "https://localhost:10005"@,
            c.namespace@ == "/daemon"@,
            c.redis is None,
            c.daemon_info is None,
    {
        SocketConfig {
            url: String::from_str("https://localhost:10005"),
            namespace: String::from_str("/daemon"),
            tls: TlsConfig::default(),
            redis: None,
            daemon_info: None,
        }
    }
}

// ---------------------------------------------------------------------------
// The connected flag.

/// What the transport reported.
#[derive(Debug, Clone, Copy, PartialEq, Eq, Structural)]
pub enum TransportEvent {
    /// The handshake completed.
    HandshakeOk,
    /// The transport accepted an outbound frame.
    EmitOk,
    /// The transport signalled an error.
    TransportError,
    /// The transport signalled a disconnect.
    DisconnectSignal,
    /// The session was closed on purpose.
    ExplicitDisconnect,
    /// A receive timed out with nothing to read; no state change.
    RecvTimeout,
}

/// What an event does to the connected flag: set it, clear it, or leave
/// it.
pub open spec fn event_sets_connected(e: TransportEvent) -> Option<bool> {
    match e {
        TransportEvent::HandshakeOk => Some(true),
        TransportEvent::EmitOk => Some(true),
        TransportEvent::TransportError => Some(false),
        TransportEvent::DisconnectSignal => Some(false),
        TransportEvent::ExplicitDisconnect => Some(false),
        TransportEvent::RecvTimeout => None,
    }
}

/// The connected flag after a history of transport events; initially
/// down.
pub open spec fn connected_after(h: Seq<TransportEvent>) -> bool
    decreases h.len(),
{
    if h.len() == 0 {
        false
    } else {
        match event_sets_connected(h.last()) {
            Some(b) => b,
            None => connected_after(h.drop_last()),
        }
    }
}

/// Some event set the flag, and every later event left it alone.
pub open spec fn last_change_is_up(h: Seq<TransportEvent>) -> bool {
    exists|i: int|
        0 <= i < h.len() && event_sets_connected(#[trigger] h[i]) == Some(true) && (forall|j: int|
            i < j < h.len() ==> event_sets_connected(#[trigger] h[j]) is None)
}

/// The connected flag is true exactly when the most recent state-changing
/// transport event was a success — a handshake or an accepted emit — and
/// false after any error or disconnect, however many timeouts followed.
pub proof fn lemma_connected_iff_last_change(h: Seq<TransportEvent>)
    ensures
        connected_after(h) == last_change_is_up(h),
    decreases h.len(),
{
    if h.len() == 0 {
    } else {
        let last = h.last();
        let h2 = h.drop_last();
        match event_sets_connected(last) {
            Some(b) => {
                if b {
                    assert(event_sets_connected(h[h.len() - 1]) == Some(true));
                    assert(last_change_is_up(h));
                } else {
                    if last_change_is_up(h) {
                        let i = choose|i: int|
                            0 <= i < h.len() && event_sets_connected(#[trigger] h[i]) == Some(true)
                                && (forall|j: int|
                                i < j < h.len() ==> event_sets_connected(#[trigger] h[j]) is None);
                        if i == h.len() - 1 {
                            assert(false);
                        } else {
                            assert(event_sets_connected(h[h.len() - 1]) is None);
                            assert(false);
                        }
                    }
                }
            },
            None => {
                lemma_connected_iff_last_change(h2);
                if last_change_is_up(h2) {
                    let i = choose|i: int|
                        0 <= i < h2.len() && event_sets_connected(#[trigger] h2[i]) == Some(true)
                            && (forall|j: int|
                            i < j < h2.len() ==> event_sets_connected(#[trigger] h2[j]) is None);
                    assert(h[i] == h2[i]);
                    assert forall|j: int| i < j < h.len() implies event_sets_connected(
                        #[trigger] h[j],
                    ) is None by {
                        if j < h2.len() {
                            assert(h[j] == h2[j]);
                        } else {
                            assert(h[j] == last);
                        }
                    }
                    assert(last_change_is_up(h));
                }
                if last_change_is_up(h) {
                    let i = choose|i: int|
                        0 <= i < h.len() && event_sets_connected(#[trigger] h[i]) == Some(true) && (
                        forall|j: int|
                            i < j < h.len() ==> event_sets_connected(#[trigger] h[j]) is None);
                    assert(i != h.len() - 1);
                    assert(h2[i] == h[i]);
                    assert forall|j: int| i < j < h2.len() implies event_sets_connected(
                        #[trigger] h2[j],
                    ) is None by {
                        assert(h2[j] == h[j]);
                    }
                    assert(last_change_is_up(h2));
                }
            },
        }
    }
}

/// The connected flag, with the transport history it reflects.
pub struct ConnectionFlag {
    connected: bool,
    history: Ghost<Seq<TransportEvent>>,
}

impl ConnectionFlag {
    /// The events the transport has reported so far.
    pub closed spec fn history(&self) -> Seq<TransportEvent> {
        self.history@
    }

    /// The flag always equals the fold of the history.
    pub closed spec fn inv(&self) -> bool {
        self.connected == connected_after(self.history@)
    }

    /// A fresh session: nothing happened, not connected.
    pub fn new() -> (c: ConnectionFlag)
        ensures
            c.inv(),
            c.history() == Seq::<TransportEvent>::empty(),
    {
        ConnectionFlag { connected: false, history: Ghost(Seq::empty()) }
    }

    /// Record what the transport reported.
    pub fn apply(&mut self, e: TransportEvent)
        requires
            old(self).inv(),
        ensures
            final(self).inv(),
            final(self).history() == old(self).history().push(e),
    {
        match e {
            TransportEvent::HandshakeOk => {
                self.connected = true;
            },
            TransportEvent::EmitOk => {
                self.connected = true;
            },
            TransportEvent::TransportError => {
                self.connected = false;
            },
            TransportEvent::DisconnectSignal => {
                self.connected = false;
            },
            TransportEvent::ExplicitDisconnect => {
                self.connected = false;
            },
            TransportEvent::RecvTimeout => {},
        }
        proof {
            self.history@ = self.history@.push(e);
            assert(self.history@.drop_last() =~= old(self).history@);
        }
    }

    /// Whether the session is up: the fold of the reported history.
    pub fn is_connected(&self) -> (r: bool)
        requires
            self.inv(),
        ensures
            r == connected_after(self.history()),
            r == last_change_is_up(self.history()),
    {
        proof {
            lemma_connected_iff_last_change(self.history@);
        }
        self.connected
    }
}

// ---------------------------------------------------------------------------
// Reconnect signalling and endpoint selection.

/// A directory event triggers a reconnect exactly when a server came
/// online while this session is down.
pub fn should_trigger_reconnect(event: &ServiceEvent, connected: bool) -> (r: bool)
    ensures
        r == (event.service@ == "server"@ && event.event_type == ServiceEventType::Online
            && !connected),
{
    str_eq(event.service.as_str(), "server") && event.event_type == ServiceEventType::Online
        && !connected
}

pub open spec fn https_url_spec(addr: Seq<char>) -> Seq<char> {
    "https://"@ + addr
}

/// The endpoint after a discovery round: the best discovered address,
/// prefixed `https://`, or the current endpoint when nothing was found.
pub fn discovered_endpoint(servers: &Vec<String>, current: &str) -> (r: String)
    ensures
        servers@.len() > 0 ==> r@ == https_url_spec(servers@[0]@),
        servers@.len() == 0 ==> r@ == current@,
{
    if servers.len() > 0 {
        String::from_str("https://").concat(servers[0].as_str())
    } else {
        String::from_str(current)
    }
}

/// The endpoint built from a host and port pair.
pub fn endpoint_of(host: &str, port: u64) -> (r: String)
    ensures
        r@ == "https://"@ + host@ + ":"@ + crate::strutil::dec_rep(port as nat),
{
    let p = crate::strutil::u64_to_dec(port);
    String::from_str("https://").concat(host).concat(":").concat(p.as_str())
}

// ---------------------------------------------------------------------------
// TLS decisions.

/// Where the client identity for mTLS comes from.
#[derive(Debug, Clone)]
pub enum IdentitySource {
    /// A PKCS#12 bundle and its password.
    Pkcs12 { cert_path: String, password: String },
    /// A PEM certificate with its separate key.
    Pem { cert_path: String, key_path: String },
}

/// What the transport must do to set TLS up.
#[derive(Debug, Clone)]
pub struct TlsPlan {
    pub ca_cert_path: Option<String>,
    pub identity: Option<IdentitySource>,
    pub accept_invalid_certs: bool,
}

/// Does the path name a PKCS#12 bundle?
pub open spec fn ends_with(s: Seq<char>, suffix: Seq<char>) -> bool {
    s.len() >= suffix.len() && s.subrange(s.len() - suffix.len(), s.len() as int) == suffix
}

pub open spec fn is_p12_path(s: Seq<char>) -> bool {
    ends_with(s, ".p12"@) || ends_with(s, ".pfx"@)
}

fn ends_with_lit(s: &str, suffix: &str) -> (r: bool)
    ensures
        r == ends_with(s@, suffix@),
{
    let slen = s.unicode_len();
    let xlen = suffix.unicode_len();
    if slen < xlen {
        return false;
    }
    let tail = s.substring_char(slen - xlen, slen);
    str_eq(tail, suffix)
}

/// Decide the TLS setup from the configuration.  No material at all and no
/// insecure toggle means plain transport; a PEM client certificate without
/// its key is rejected; everything else carries over as given.  The
/// insecure toggle must be surfaced as a warning by the caller.
pub fn build_tls_plan(tls: &TlsConfig) -> (r: Result<Option<TlsPlan>, SocketError>)
    ensures
        (tls.ca_cert_path is None && tls.client_cert_path is None
            && !tls.danger_accept_invalid_certs) ==> (r matches Ok(p) && p is None),
        (tls.client_cert_path matches Some(c) && !is_p12_path(c@) && tls.client_key_path is None)
            ==> (r matches Err(e) && e matches SocketError::TlsError(_)),
        !(tls.ca_cert_path is None && tls.client_cert_path is None
            && !tls.danger_accept_invalid_certs) && !(tls.client_cert_path matches Some(c)
            && !is_p12_path(c@) && tls.client_key_path is None) ==> (r matches Ok(p) && p matches
            Some(plan) && {
            &&& plan.accept_invalid_certs == tls.danger_accept_invalid_certs
            &&& (match (plan.ca_cert_path, tls.ca_cert_path) {
                (Some(a), Some(b)) => a@ == b@,
                (None, None) => true,
                _ => false,
            })
            &&& (match tls.client_cert_path {
                None => plan.identity is None,
                Some(cert) => {
                    if is_p12_path(cert@) {
                        plan.identity matches Some(
                            IdentitySource::Pkcs12 { cert_path, password },
                        ) && cert_path@ == cert@ && (match tls.client_p12_password {
                            Some(pw) => password@ == pw@,
                            None => password@ == Seq::<char>::empty(),
                        })
                    } else {
                        plan.identity matches Some(IdentitySource::Pem { cert_path, key_path })
                            && cert_path@ == cert@ && (tls.client_key_path matches Some(k)
                            && key_path@ == k@)
                    }
                },
            })
        }),
{
    let has_ca = tls.ca_cert_path.is_some();
    let has_cert = tls.client_cert_path.is_some();
    if !has_ca && !has_cert && !tls.danger_accept_invalid_certs {
        return Ok(None);
    }
    let ca_cert_path = match &tls.ca_cert_path {
        Some(p) => Some(p.clone()),
        None => None,
    };
    let identity = match &tls.client_cert_path {
        None => None,
        Some(cert) => {
            if ends_with_lit(cert.as_str(), ".p12") || ends_with_lit(cert.as_str(), ".pfx") {
                let password = match &tls.client_p12_password {
                    Some(pw) => pw.clone(),
                    None => String::new(),
                };
                Some(IdentitySource::Pkcs12 { cert_path: cert.clone(), password })
            } else {
                match &tls.client_key_path {
                    Some(key) => Some(
                        IdentitySource::Pem { cert_path: cert.clone(), key_path: key.clone() },
                    ),
                    None => {
                        return Err(
                            SocketError::TlsError(
                                String::from_str("client key path required for PEM certificates"),
                            ),
                        );
                    },
                }
            }
        },
    };
    Ok(
        Some(
            TlsPlan {
                ca_cert_path,
                identity,
                accept_invalid_certs: tls.danger_accept_invalid_certs,
            },
        ),
    )
}

} // verus!
