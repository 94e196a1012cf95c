//! The service directory protocol: TTL-keyed registration entries, the
//! pub/sub events that announce them, and priority-ordered server
//! discovery.
//!
//! The directory itself is a remote key/value store; the library computes
//! the keys, the entry payloads, and the events, and hands the caller a
//! plan to execute.  Server addresses are ranked so that local servers win
//! over private-range ones, and those over public ones.

use vstd::prelude::*;
use vstd::string::*;
use crate::strutil::str_eq;

verus! {

/// What kind of change a directory event announces.
#[derive(Debug, Clone, Copy, PartialEq, Eq, Structural)]
pub enum ServiceEventType {
    Online,
    Offline,
    SessionUpdate,
}

/// One session a daemon currently serves.
#[derive(Debug, Clone)]
pub struct SessionInfo {
    pub session_id: String,
    pub project_path: String,
}

/// The two session lists agree element for element.
pub open spec fn sessions_match(a: Seq<SessionInfo>, b: Seq<SessionInfo>) -> bool {
    a.len() == b.len() && forall|k: int|
        0 <= k < a.len() ==> (#[trigger] a[k]).session_id@ == b[k].session_id@
            && a[k].project_path@ == b[k].project_path@
}

/// A broadcast event on the directory's pub/sub channel.
#[derive(Debug, Clone)]
pub struct ServiceEvent {
    pub event_type: ServiceEventType,
    pub service: String,
    pub address: Option<String>,
    pub device_id: Option<String>,
    pub sessions: Option<Vec<SessionInfo>>,
    pub timestamp: u64,
}

/// A server's directory entry.
#[derive(Debug, Clone)]
pub struct ServiceInfo {
    pub address: String,
    pub ttl: u64,
    pub registered_at: u64,
}

/// A daemon's directory entry.
#[derive(Debug, Clone)]
pub struct DaemonInfo {
    pub device_id: String,
    pub device_name: String,
    pub platform: String,
    pub version: String,
    pub sessions: Vec<SessionInfo>,
    pub registered_at: u64,
}

/// How to reach the directory, and the key namespace to use in it.
#[derive(Debug, Clone)]
pub struct ServiceRegistryConfig {
    pub host: String,
    pub port: u16,
    pub password: Option<String>,
    pub key_prefix: String,
}

impl Default for ServiceRegistryConfig {
    /// The local store on its usual port, under the `vlaude:` namespace.
    fn default() -> (c: ServiceRegistryConfig)
        ensures
            c.host@ == "localhost"@,
            c.port == 6379,
            c.password is None,
            c.key_prefix@ == "vlaude:"@,
    {
        ServiceRegistryConfig {
            host: String::from_str("localhost"),
            port: 6379,
            password: None,
            key_prefix: String::from_str("vlaude:"),
        }
    }
}

// ---------------------------------------------------------------------------
// Keys and channel names.

pub open spec fn service_key_spec(prefix: Seq<char>, service: Seq<char>, address: Seq<char>) -> Seq<
    char,
> {
    prefix + "services:"@ + service + ":"@ + address
}

pub open spec fn daemon_key_spec(prefix: Seq<char>, device_id: Seq<char>) -> Seq<char> {
    prefix + "services:daemon:"@ + device_id
}

pub open spec fn channel_spec(prefix: Seq<char>) -> Seq<char> {
    prefix + "channel:service-registry"@
}

/// The key a server registers under.
pub fn build_service_key(prefix: &str, service: &str, address: &str) -> (r: String)
    ensures
        r@ == service_key_spec(prefix@, service@, address@),
{
    String::from_str(prefix).concat("services:").concat(service).concat(":").concat(address)
}

/// The key a daemon registers under.
pub fn build_daemon_key(prefix: &str, device_id: &str) -> (r: String)
    ensures
        r@ == daemon_key_spec(prefix@, device_id@),
{
    String::from_str(prefix).concat("services:daemon:").concat(device_id)
}

/// The pub/sub channel events are broadcast on.
pub fn build_channel(prefix: &str) -> (r: String)
    ensures
        r@ == channel_spec(prefix@),
{
    String::from_str(prefix).concat("channel:service-registry")
}

// ---------------------------------------------------------------------------
// Server priority.

/// The characters of an address before its first `:`.
pub open spec fn host_len(s: Seq<char>) -> nat
    decreases s.len(),
{
    if s.len() == 0 {
        0
    } else if s.first() == ':' {
        0
    } else {
        1 + host_len(s.drop_first())
    }
}

pub open spec fn host_of(s: Seq<char>) -> Seq<char> {
    s.subrange(0, host_len(s) as int)
}

proof fn lemma_host_len_at(s: Seq<char>, i: int)
    requires
        0 <= i <= s.len(),
        forall|j: int| 0 <= j < i ==> s[j] != ':',
        i < s.len() ==> s[i] == ':',
    ensures
        host_len(s) == i,
    decreases i,
{
    if s.len() == 0 {
    } else if i == 0 {
    } else {
        assert(s.first() != ':');
        let s2 = s.drop_first();
        assert forall|j: int| 0 <= j < i - 1 implies s2[j] != ':' by {
            assert(s2[j] == s[j + 1]);
        }
        if i - 1 < s2.len() {
            assert(s2[i - 1] == s[i]);
        }
        lemma_host_len_at(s2, i - 1);
    }
}

/// The rank of a server address: local addresses first, private ranges
/// next, the public internet last.
pub open spec fn addr_priority(s: Seq<char>) -> u8 {
    let h = host_of(s);
    if h == "localhost"@ || h == "127.0.0.1"@ {
        3
    } else if (h.len() >= 8 && h.subrange(0, 8) == "192.168."@) || (h.len() >= 3 && h.subrange(
        0,
        3,
    ) == "10."@) || (h.len() >= 4 && h.subrange(0, 4) == "172."@) {
        2
    } else {
        1
    }
}

/// Higher ranks come first; on addresses of differing rank this is a
/// strict total order.
pub proof fn lemma_priority_total_order(a: Seq<char>, b: Seq<char>, c: Seq<char>)
    ensures
        addr_priority(a) != addr_priority(b) ==> (addr_priority(a) > addr_priority(b))
            != (addr_priority(b) > addr_priority(a)),
        addr_priority(a) > addr_priority(b) && addr_priority(b) > addr_priority(c)
            ==> addr_priority(a) > addr_priority(c),
{
}

fn host_part(address: &str) -> (r: String)
    ensures
        r@ == host_of(address@),
{
    let len = address.unicode_len();
    let mut i: usize = 0;
    let mut cut: usize = len;
    let mut found = false;
    while i < len && !found
        invariant
            len == address@.len(),
            i <= len,
            !found ==> cut == len && forall|j: int| 0 <= j < i ==> address@[j] != ':',
            found ==> cut < len && address@[cut as int] == ':' && forall|j: int|
                0 <= j < cut ==> address@[j] != ':',
        decreases len - i, (if found { 0int } else { 1int }),
    {
        if address.get_char(i) == ':' {
            cut = i;
            found = true;
        } else {
            i = i + 1;
        }
    }
    proof {
        lemma_host_len_at(address@, cut as int);
    }
    let mut out = String::new();
    let mut k: usize = 0;
    while k < cut
        invariant
            cut <= address@.len(),
            k <= cut,
            out@ == address@.subrange(0, k as int),
        decreases cut - k,
    {
        crate::strutil::push_char(&mut out, address.get_char(k));
        proof {
            assert(out@ =~= address@.subrange(0, k + 1));
        }
        k = k + 1;
    }
    proof {
        assert(out@ =~= address@.subrange(0, cut as int));
    }
    out
}

fn starts_with_lit(h: &str, lit: &str) -> (r: bool)
    ensures
        r == (h@.len() >= lit@.len() && h@.subrange(0, lit@.len() as int) == lit@),
{
    let hlen = h.unicode_len();
    let llen = lit.unicode_len();
    if hlen < llen {
        return false;
    }
    let pre = h.substring_char(0, llen);
    str_eq(pre, lit)
}

/// Rank a server address for discovery.
pub fn get_priority(address: &str) -> (r: u8)
    ensures
        r == addr_priority(address@),
{
    let host = host_part(address);
    proof {
        reveal_strlit("192.168.");
        reveal_strlit("10.");
        reveal_strlit("172.");
    }
    if str_eq(host.as_str(), "localhost") || str_eq(host.as_str(), "127.0.0.1") {
        3
    } else if starts_with_lit(host.as_str(), "192.168.") || starts_with_lit(host.as_str(), "10.")
        || starts_with_lit(host.as_str(), "172.") {
        2
    } else {
        1
    }
}

/// The addresses of one rank, in their original order.
pub open spec fn keep_priority(addrs: Seq<String>, p: u8) -> Seq<String>
    decreases addrs.len(),
{
    if addrs.len() == 0 {
        Seq::empty()
    } else {
        let rest = keep_priority(addrs.drop_last(), p);
        if addr_priority(addrs.last()@) == p {
            rest.push(addrs.last())
        } else {
            rest
        }
    }
}

proof fn lemma_keep_priority_len(addrs: Seq<String>)
    ensures
        keep_priority(addrs, 3).len() + keep_priority(addrs, 2).len() + keep_priority(
            addrs,
            1,
        ).len() == addrs.len(),
    decreases addrs.len(),
{
    if addrs.len() > 0 {
        lemma_keep_priority_len(addrs.drop_last());
        let p = addr_priority(addrs.last()@);
        assert(p == 3 || p == 2 || p == 1);
    }
}

proof fn lemma_keep_priority_members(addrs: Seq<String>, p: u8, i: int)
    requires
        0 <= i < keep_priority(addrs, p).len(),
    ensures
        addr_priority(keep_priority(addrs, p)[i]@) == p,
    decreases addrs.len(),
{
    if addrs.len() > 0 {
        let rest = keep_priority(addrs.drop_last(), p);
        if i < rest.len() {
            lemma_keep_priority_members(addrs.drop_last(), p, i);
        }
    }
}

/// The sorted discovery order: priority 3, then 2, then 1, each group in
/// listing order.
pub open spec fn sorted_by_priority(addrs: Seq<String>) -> Seq<String> {
    keep_priority(addrs, 3) + keep_priority(addrs, 2) + keep_priority(addrs, 1)
}

/// The sort keeps every address, puts higher priorities strictly first,
/// and preserves the listing order inside each priority class.
pub proof fn lemma_sort_by_priority_orders(addrs: Seq<String>)
    ensures
        sorted_by_priority(addrs).len() == addrs.len(),
        forall|i: int, j: int|
            0 <= i < j < sorted_by_priority(addrs).len() ==> addr_priority(
                #[trigger] sorted_by_priority(addrs)[i]@,
            ) >= addr_priority(#[trigger] sorted_by_priority(addrs)[j]@),
{
    lemma_keep_priority_len(addrs);
    let out = sorted_by_priority(addrs);
    let n3 = keep_priority(addrs, 3).len() as int;
    let n2 = keep_priority(addrs, 2).len() as int;
    assert forall|i: int| 0 <= i < out.len() implies addr_priority(#[trigger] out[i]@) == (if i
        < n3 {
        3u8
    } else if i < n3 + n2 {
        2u8
    } else {
        1u8
    }) by {
        if i < n3 {
            lemma_keep_priority_members(addrs, 3, i);
        } else if i < n3 + n2 {
            lemma_keep_priority_members(addrs, 2, i - n3);
        } else {
            lemma_keep_priority_members(addrs, 1, i - n3 - n2);
        }
    }
}

fn collect_priority(addresses: &Vec<String>, p: u8) -> (r: Vec<String>)
    requires
        p == 1 || p == 2 || p == 3,
    ensures
        r@ == keep_priority(addresses@, p),
{
    let n = addresses.len();
    let mut r: Vec<String> = Vec::new();
    let mut i: usize = 0;
    proof {
        assert(addresses@.subrange(0, 0) =~= Seq::<String>::empty());
    }
    while i < n
        invariant
            p == 1 || p == 2 || p == 3,
            n == addresses@.len(),
            i <= n,
            r@ == keep_priority(addresses@.subrange(0, i as int), p),
        decreases n - i,
    {
        proof {
            assert(addresses@.subrange(0, i + 1).drop_last() =~= addresses@.subrange(0, i as int));
            assert(addresses@.subrange(0, i + 1).last() == addresses@[i as int]);
        }
        let pr = get_priority(addresses[i].as_str());
        if pr == p {
            r.push(addresses[i].clone());
        }
        i = i + 1;
    }
    proof {
        assert(addresses@.subrange(0, n as int) =~= addresses@);
    }
    r
}

/// Order discovered servers by priority, ties in listing order.
pub fn sort_by_priority(addresses: &Vec<String>) -> (r: Vec<String>)
    ensures
        r@ == sorted_by_priority(addresses@),
        r@.len() == addresses@.len(),
{
    let mut r = collect_priority(addresses, 3);
    let mut mid = collect_priority(addresses, 2);
    let mut low = collect_priority(addresses, 1);
    r.append(&mut mid);
    r.append(&mut low);
    proof {
        lemma_keep_priority_len(addresses@);
        assert(r@ =~= sorted_by_priority(addresses@));
    }
    r
}

// ---------------------------------------------------------------------------
// Registration plans.
//
// Each directory operation is computed here as a plan — the key to touch,
// the entry to store, the event to publish — and executed by the caller
// against the remote store.

/// Plan for registering a server: store the entry under its key with the
/// TTL, then publish `online`.
pub struct RegisterServerPlan {
    pub key: String,
    pub info: ServiceInfo,
    pub ttl: u64,
    pub event: ServiceEvent,
}

pub fn plan_register_server(prefix: &str, address: &str, ttl: u64, now: u64) -> (r:
    RegisterServerPlan)
    ensures
        r.key@ == service_key_spec(prefix@, "server"@, address@),
        r.info.address@ == address@,
        r.info.ttl == ttl,
        r.info.registered_at == now,
        r.ttl == ttl,
        r.event.event_type == ServiceEventType::Online,
        r.event.service@ == "server"@,
        r.event.address matches Some(a) && a@ == address@,
        r.event.device_id is None,
        r.event.sessions is None,
        r.event.timestamp == now,
{
    RegisterServerPlan {
        key: build_service_key(prefix, "server", address),
        info: ServiceInfo { address: String::from_str(address), ttl, registered_at: now },
        ttl,
        event: ServiceEvent {
            event_type: ServiceEventType::Online,
            service: String::from_str("server"),
            address: Some(String::from_str(address)),
            device_id: None,
            sessions: None,
            timestamp: now,
        },
    }
}

/// Plan for unregistering a server: delete its key, then publish
/// `offline`.
pub struct UnregisterServerPlan {
    pub key: String,
    pub event: ServiceEvent,
}

pub fn plan_unregister_server(prefix: &str, address: &str, now: u64) -> (r: UnregisterServerPlan)
    ensures
        r.key@ == service_key_spec(prefix@, "server"@, address@),
        r.event.event_type == ServiceEventType::Offline,
        r.event.service@ == "server"@,
        r.event.address matches Some(a) && a@ == address@,
        r.event.device_id is None,
        r.event.sessions is None,
        r.event.timestamp == now,
{
    UnregisterServerPlan {
        key: build_service_key(prefix, "server", address),
        event: ServiceEvent {
            event_type: ServiceEventType::Offline,
            service: String::from_str("server"),
            address: Some(String::from_str(address)),
            device_id: None,
            sessions: None,
            timestamp: now,
        },
    }
}

/// Plan for registering a daemon: store its entry under the daemon key
/// with the TTL, then publish `online` carrying its sessions.
pub struct RegisterDaemonPlan {
    pub key: String,
    pub info: DaemonInfo,
    pub ttl: u64,
    pub event: ServiceEvent,
}

pub fn plan_register_daemon(prefix: &str, info: DaemonInfo, ttl: u64, now: u64) -> (r:
    RegisterDaemonPlan)
    ensures
        r.key@ == daemon_key_spec(prefix@, info.device_id@),
        r.info == info,
        r.ttl == ttl,
        r.event.event_type == ServiceEventType::Online,
        r.event.service@ == "daemon"@,
        r.event.address is None,
        r.event.device_id matches Some(d) && d@ == info.device_id@,
        r.event.sessions matches Some(s) && sessions_match(s@, info.sessions@),
        r.event.timestamp == now,
{
    let key = build_daemon_key(prefix, info.device_id.as_str());
    let device_id = info.device_id.clone();
    let sessions = clone_sessions(&info.sessions);
    RegisterDaemonPlan {
        key,
        info,
        ttl,
        event: ServiceEvent {
            event_type: ServiceEventType::Online,
            service: String::from_str("daemon"),
            address: None,
            device_id: Some(device_id),
            sessions: Some(sessions),
            timestamp: now,
        },
    }
}

/// Plan for unregistering a daemon: delete its key, then publish
/// `offline`.
pub struct UnregisterDaemonPlan {
    pub key: String,
    pub event: ServiceEvent,
}

pub fn plan_unregister_daemon(prefix: &str, device_id: &str, now: u64) -> (r: UnregisterDaemonPlan)
    ensures
        r.key@ == daemon_key_spec(prefix@, device_id@),
        r.event.event_type == ServiceEventType::Offline,
        r.event.service@ == "daemon"@,
        r.event.address is None,
        r.event.device_id matches Some(d) && d@ == device_id@,
        r.event.sessions is None,
        r.event.timestamp == now,
{
    UnregisterDaemonPlan {
        key: build_daemon_key(prefix, device_id),
        event: ServiceEvent {
            event_type: ServiceEventType::Offline,
            service: String::from_str("daemon"),
            address: None,
            device_id: Some(String::from_str(device_id)),
            sessions: None,
            timestamp: now,
        },
    }
}

/// Whether a keep-alive may refresh the entry, from whether the key still
/// exists.  An expired key is not refreshed: the caller must re-register.
pub fn keep_alive_decision(key_exists: bool) -> (r: Result<(), crate::error::SocketError>)
    ensures
        r is Ok <==> key_exists,
{
    if key_exists {
        Ok(())
    } else {
        Err(
            crate::error::SocketError::RegistryError(
                String::from_str("daemon entry expired; re-register"),
            ),
        )
    }
}

/// Plan for replacing a daemon entry's session list: preserve the other
/// fields, reset the TTL, publish `session_update`.
pub struct UpdateSessionsPlan {
    pub key: String,
    pub info: DaemonInfo,
    pub ttl: u64,
    pub event: ServiceEvent,
}

pub fn plan_update_daemon_sessions(
    prefix: &str,
    existing: DaemonInfo,
    sessions: Vec<SessionInfo>,
    ttl: u64,
    now: u64,
) -> (r: UpdateSessionsPlan)
    ensures
        r.key@ == daemon_key_spec(prefix@, existing.device_id@),
        r.info.device_id == existing.device_id,
        r.info.device_name == existing.device_name,
        r.info.platform == existing.platform,
        r.info.version == existing.version,
        r.info.registered_at == existing.registered_at,
        r.info.sessions == sessions,
        r.ttl == ttl,
        r.event.event_type == ServiceEventType::SessionUpdate,
        r.event.service@ == "daemon"@,
        r.event.device_id matches Some(d) && d@ == existing.device_id@,
        r.event.sessions matches Some(s) && sessions_match(s@, sessions@),
        r.event.timestamp == now,
{
    let key = build_daemon_key(prefix, existing.device_id.as_str());
    let device_id = existing.device_id.clone();
    let event_sessions = clone_sessions(&sessions);
    let info = DaemonInfo {
        device_id: existing.device_id,
        device_name: existing.device_name,
        platform: existing.platform,
        version: existing.version,
        sessions,
        registered_at: existing.registered_at,
    };
    UpdateSessionsPlan {
        key,
        info,
        ttl,
        event: ServiceEvent {
            event_type: ServiceEventType::SessionUpdate,
            service: String::from_str("daemon"),
            address: None,
            device_id: Some(device_id),
            sessions: Some(event_sessions),
            timestamp: now,
        },
    }
}

fn clone_sessions(sessions: &Vec<SessionInfo>) -> (r: Vec<SessionInfo>)
    ensures
        sessions_match(r@, sessions@),
{
    let n = sessions.len();
    let mut r: Vec<SessionInfo> = Vec::new();
    let mut i: usize = 0;
    while i < n
        invariant
            n == sessions@.len(),
            i <= n,
            r@.len() == i,
            forall|k: int|
                0 <= k < i ==> (#[trigger] r@[k]).session_id@ == sessions@[k].session_id@
                    && r@[k].project_path@ == sessions@[k].project_path@,
        decreases n - i,
    {
        r.push(
            SessionInfo {
                session_id: sessions[i].session_id.clone(),
                project_path: sessions[i].project_path.clone(),
            },
        );
        i = i + 1;
    }
    r
}

/// Registering a daemon and then immediately unregistering it leaves the
/// directory's key set exactly as it was, and publishes one `online`
/// followed by one `offline`.
pub proof fn lemma_register_unregister_roundtrip(
    keys: Set<Seq<char>>,
    reg: RegisterDaemonPlan,
    unreg: UnregisterDaemonPlan,
)
    requires
        reg.key@ == unreg.key@,
        !keys.contains(reg.key@),
        reg.event.event_type == ServiceEventType::Online,
        unreg.event.event_type == ServiceEventType::Offline,
    ensures
        keys.insert(reg.key@).remove(unreg.key@) == keys,
        seq![reg.event.event_type, unreg.event.event_type] == seq![
            ServiceEventType::Online,
            ServiceEventType::Offline,
        ],
{
    assert(keys.insert(reg.key@).remove(unreg.key@) =~= keys);
    assert(seq![reg.event.event_type, unreg.event.event_type] =~= seq![
        ServiceEventType::Online,
        ServiceEventType::Offline,
    ]);
}

} // verus!
