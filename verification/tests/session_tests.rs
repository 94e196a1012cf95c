use vlaude_core::approval::{
    approval_description, format_tool_description, request_id_of, ApprovalRegistry,
};
use vlaude_core::conn::{
    discovered_endpoint, endpoint_of, should_trigger_reconnect, build_tls_plan, ConnectionFlag,
    IdentitySource, SocketConfig, TlsConfig, TransportEvent,
};
use vlaude_core::directory::{ServiceEvent, ServiceEventType};
use vlaude_core::election::{ElectionEvent, Role, WriterElection};
use vlaude_core::error::SocketError;

#[test]
fn test_error_kinds() {
    assert_eq!(SocketError::NotConnected.kind(), "not_connected");
    assert_eq!(SocketError::AckTimeout.kind(), "ack_timeout");
    assert_eq!(SocketError::TlsError("x".to_string()).kind(), "tls_error");
    assert_eq!(SocketError::InvalidInput("session_id".to_string()).kind(), "invalid_input");
}

#[test]
fn test_socket_config_default() {
    let config = SocketConfig::default();
    assert_eq!(config.url, "https://localhost:10005");
    assert_eq!(config.namespace, "/daemon");
}

#[test]
fn client_test_socket_config_default() {
    let config = SocketConfig::default();
    assert_eq!(config.url, "https://localhost:10005");
    assert_eq!(config.namespace, "/daemon");
}

#[test]
fn test_connected_flag_follows_transport() {
    let mut flag = ConnectionFlag::new();
    assert!(!flag.is_connected());
    flag.apply(TransportEvent::HandshakeOk);
    assert!(flag.is_connected());
    // A receive timeout is not a state change.
    flag.apply(TransportEvent::RecvTimeout);
    assert!(flag.is_connected());
    flag.apply(TransportEvent::TransportError);
    assert!(!flag.is_connected());
    flag.apply(TransportEvent::RecvTimeout);
    assert!(!flag.is_connected());
    flag.apply(TransportEvent::EmitOk);
    assert!(flag.is_connected());
    flag.apply(TransportEvent::ExplicitDisconnect);
    assert!(!flag.is_connected());
}

#[test]
fn test_reconnect_signal_rules() {
    let online_server = ServiceEvent {
        event_type: ServiceEventType::Online,
        service: "server".to_string(),
        address: Some("10.0.0.5:10005".to_string()),
        device_id: None,
        sessions: None,
        timestamp: 0,
    };
    // Only a server coming online while we are down triggers a reconnect.
    assert!(should_trigger_reconnect(&online_server, false));
    assert!(!should_trigger_reconnect(&online_server, true));
    let offline_server = ServiceEvent { event_type: ServiceEventType::Offline, ..online_server.clone() };
    assert!(!should_trigger_reconnect(&offline_server, false));
    let online_daemon = ServiceEvent { service: "daemon".to_string(), ..online_server };
    assert!(!should_trigger_reconnect(&online_daemon, false));
}

#[test]
fn test_endpoint_selection() {
    let servers = vec!["10.0.0.5:10005".to_string(), "example.com:1".to_string()];
    assert_eq!(
        discovered_endpoint(&servers, "https://localhost:10005"),
        "https://10.0.0.5:10005"
    );
    let none: Vec<String> = Vec::new();
    assert_eq!(discovered_endpoint(&none, "https://localhost:10005"), "https://localhost:10005");
    assert_eq!(endpoint_of("localhost", 10005), "https://localhost:10005");
}

#[test]
fn test_tls_plan_decisions() {
    // Nothing configured: plain transport.
    assert!(matches!(build_tls_plan(&TlsConfig::default()), Ok(None)));

    // PEM client certificate without its key is refused.
    let pem_no_key = TlsConfig {
        client_cert_path: Some("/etc/certs/client.pem".to_string()),
        ..TlsConfig::default()
    };
    assert!(matches!(build_tls_plan(&pem_no_key), Err(SocketError::TlsError(_))));

    // A PKCS#12 bundle uses its password, defaulting to empty.
    let p12 = TlsConfig {
        client_cert_path: Some("/etc/certs/client.p12".to_string()),
        ..TlsConfig::default()
    };
    match build_tls_plan(&p12) {
        Ok(Some(plan)) => match plan.identity {
            Some(IdentitySource::Pkcs12 { cert_path, password }) => {
                assert_eq!(cert_path, "/etc/certs/client.p12");
                assert_eq!(password, "");
            },
            other => panic!("expected a PKCS#12 identity, got {:?}", other),
        },
        other => panic!("expected a plan, got {:?}", other),
    }

    // The insecure toggle alone still produces a plan that carries it.
    let insecure = TlsConfig { danger_accept_invalid_certs: true, ..TlsConfig::default() };
    match build_tls_plan(&insecure) {
        Ok(Some(plan)) => assert!(plan.accept_invalid_certs),
        other => panic!("expected a plan, got {:?}", other),
    }
}

#[test]
fn test_writer_election_scenario() {
    // The store grants the lease to the first daemon.
    let mut a = WriterElection::new();
    a.apply(ElectionEvent::RegisterResult { granted: true });
    assert_eq!(a.role(), Role::Writer);
    assert!(a.heartbeat_active());

    // A second daemon is told no and stays reader.
    let mut b = WriterElection::new();
    b.apply(ElectionEvent::RegisterResult { granted: false });
    assert_eq!(b.role(), Role::Reader);
    assert!(!b.heartbeat_active());

    // While the writer is healthy, a takeover is refused.
    a.apply(ElectionEvent::HeartbeatResult { ok: true });
    assert_eq!(a.role(), Role::Writer);
    b.apply(ElectionEvent::TakeoverResult { taken: false });
    assert_eq!(b.role(), Role::Reader);

    // The writer dies without releasing; the lease check fails and the
    // takeover succeeds.
    b.apply(ElectionEvent::TakeoverResult { taken: true });
    assert_eq!(b.role(), Role::Writer);
    assert!(b.heartbeat_active());
}

#[test]
fn test_heartbeat_failure_demotes() {
    let mut w = WriterElection::new();
    w.apply(ElectionEvent::RegisterResult { granted: true });
    w.apply(ElectionEvent::HeartbeatResult { ok: false });
    assert_eq!(w.role(), Role::Reader);
    assert!(!w.heartbeat_active());
    w.apply(ElectionEvent::Released);
    assert_eq!(w.role(), Role::Reader);
}

#[test]
fn test_approval_round_trip() {
    let mut registry = ApprovalRegistry::new();
    let request_id = request_id_of("S", "u1");
    assert_eq!(request_id, "S-u1");

    let input: serde_json::Value = serde_json::from_str("{\"command\":\"ls\"}").unwrap();
    let description = format_tool_description("Bash", &input);
    assert_eq!(description, "Execute: ls");

    let token = registry.begin(&request_id);
    assert_eq!(registry.pending_count(), 1);

    // The response arrives in time: the slot is taken exactly once.
    let taken = registry.take(&request_id);
    assert_eq!(taken, Some(token));
    assert_eq!(registry.pending_count(), 0);

    // A late duplicate response finds nothing: the caller reports it
    // as expired.
    assert_eq!(registry.take(&request_id), None);
}

#[test]
fn test_approval_replaces_same_id() {
    let mut registry = ApprovalRegistry::new();
    let t1 = registry.begin("S-u1");
    let t2 = registry.begin("S-u1");
    assert_ne!(t1, t2);
    assert_eq!(registry.pending_count(), 1);
    assert_eq!(registry.take("S-u1"), Some(t2));
    assert_eq!(registry.pending_count(), 0);
}

#[test]
fn test_tool_descriptions() {
    assert_eq!(approval_description("Bash", Some("ls -la".to_string())), "Execute: ls -la");
    assert_eq!(approval_description("Write", Some("/tmp/x".to_string())), "Write file: /tmp/x");
    assert_eq!(approval_description("Edit", Some("/tmp/x".to_string())), "Edit file: /tmp/x");
    assert_eq!(approval_description("Delete", Some("/tmp/x".to_string())), "Delete file: /tmp/x");
    assert_eq!(approval_description("Bash", None), "Execute: unknown");
    assert_eq!(approval_description("Grep", Some("zzz".to_string())), "Call tool: Grep");

    let no_arg: serde_json::Value = serde_json::from_str("{}").unwrap();
    assert_eq!(format_tool_description("Bash", &no_arg), "Execute: unknown");
    assert_eq!(format_tool_description("Search", &no_arg), "Call tool: Search");
}
