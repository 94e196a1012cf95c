use vlaude_core::directory::{
    build_channel, build_daemon_key, build_service_key, get_priority, plan_register_daemon,
    plan_register_server, plan_unregister_daemon, plan_unregister_server, keep_alive_decision,
    plan_update_daemon_sessions, sort_by_priority, DaemonInfo, ServiceEventType,
    ServiceRegistryConfig, SessionInfo,
};

#[test]
fn test_registry_config_default() {
    let config = ServiceRegistryConfig::default();
    assert_eq!(config.host, "localhost");
    assert_eq!(config.port, 6379);
    assert!(config.password.is_none());
    assert_eq!(config.key_prefix, "vlaude:");
}

#[test]
fn test_key_builders() {
    assert_eq!(
        build_service_key("vlaude:", "server", "localhost:10005"),
        "vlaude:services:server:localhost:10005"
    );
    assert_eq!(build_daemon_key("vlaude:", "dev-1"), "vlaude:services:daemon:dev-1");
    assert_eq!(build_channel("vlaude:"), "vlaude:channel:service-registry");
}

#[test]
fn test_priority_classes() {
    assert_eq!(get_priority("localhost:10005"), 3);
    assert_eq!(get_priority("127.0.0.1:10005"), 3);
    assert_eq!(get_priority("192.168.1.7:10005"), 2);
    assert_eq!(get_priority("10.0.0.5:10005"), 2);
    assert_eq!(get_priority("172.16.0.9:10005"), 2);
    assert_eq!(get_priority("example.com:443"), 1);
    assert_eq!(get_priority("8.8.8.8:53"), 1);
}

#[test]
fn test_sort_by_priority_orders_and_keeps_ties() {
    let addrs = vec![
        "example.com:1".to_string(),
        "10.0.0.5:10005".to_string(),
        "localhost:10005".to_string(),
        "192.168.1.7:2".to_string(),
        "other.org:9".to_string(),
    ];
    let sorted = sort_by_priority(&addrs);
    let as_strs: Vec<&str> = sorted.iter().map(|s| s.as_str()).collect();
    assert_eq!(
        as_strs,
        vec![
            "localhost:10005",
            "10.0.0.5:10005",
            "192.168.1.7:2",
            "example.com:1",
            "other.org:9",
        ]
    );
}

#[test]
fn test_register_daemon_plan() {
    let info = DaemonInfo {
        device_id: "dev-1".to_string(),
        device_name: "host-1".to_string(),
        platform: "darwin".to_string(),
        version: "1.0.0".to_string(),
        sessions: vec![SessionInfo {
            session_id: "S".to_string(),
            project_path: "/u/a".to_string(),
        }],
        registered_at: 42,
    };
    let plan = plan_register_daemon("vlaude:", info, 30, 1000);
    assert_eq!(plan.key, "vlaude:services:daemon:dev-1");
    assert_eq!(plan.ttl, 30);
    assert_eq!(plan.event.event_type, ServiceEventType::Online);
    assert_eq!(plan.event.service, "daemon");
    assert_eq!(plan.event.device_id.as_deref(), Some("dev-1"));
    let published = plan.event.sessions.as_ref().unwrap();
    assert_eq!(published.len(), 1);
    assert_eq!(published[0].session_id, "S");
    assert_eq!(published[0].project_path, "/u/a");
    assert_eq!(plan.event.timestamp, 1000);
}

#[test]
fn test_register_unregister_roundtrip_events() {
    // Registering then unregistering touches one key and publishes
    // `online` then `offline`.
    let info = DaemonInfo {
        device_id: "dev-2".to_string(),
        device_name: "host-2".to_string(),
        platform: "linux".to_string(),
        version: "1.0.0".to_string(),
        sessions: vec![],
        registered_at: 0,
    };
    let reg = plan_register_daemon("vlaude:", info, 30, 1);
    let unreg = plan_unregister_daemon("vlaude:", "dev-2", 2);
    assert_eq!(reg.key, unreg.key);
    assert_eq!(reg.event.event_type, ServiceEventType::Online);
    assert_eq!(unreg.event.event_type, ServiceEventType::Offline);
}

#[test]
fn test_server_plans() {
    let reg = plan_register_server("vlaude:", "localhost:10005", 15, 7);
    assert_eq!(reg.key, "vlaude:services:server:localhost:10005");
    assert_eq!(reg.info.address, "localhost:10005");
    assert_eq!(reg.info.ttl, 15);
    assert_eq!(reg.info.registered_at, 7);
    assert_eq!(reg.event.event_type, ServiceEventType::Online);
    assert_eq!(reg.event.address.as_deref(), Some("localhost:10005"));

    let unreg = plan_unregister_server("vlaude:", "localhost:10005", 8);
    assert_eq!(unreg.key, reg.key);
    assert_eq!(unreg.event.event_type, ServiceEventType::Offline);
}

#[test]
fn test_keep_alive_requires_live_key() {
    assert!(keep_alive_decision(true).is_ok());
    assert!(keep_alive_decision(false).is_err());
}

#[test]
fn test_update_sessions_preserves_identity() {
    let existing = DaemonInfo {
        device_id: "dev-3".to_string(),
        device_name: "host-3".to_string(),
        platform: "linux".to_string(),
        version: "2.0.0".to_string(),
        sessions: vec![],
        registered_at: 5,
    };
    let sessions = vec![
        SessionInfo { session_id: "a".to_string(), project_path: "/p".to_string() },
        SessionInfo { session_id: "b".to_string(), project_path: "/q".to_string() },
    ];
    let plan = plan_update_daemon_sessions("vlaude:", existing, sessions, 30, 99);
    assert_eq!(plan.info.device_id, "dev-3");
    assert_eq!(plan.info.device_name, "host-3");
    assert_eq!(plan.info.registered_at, 5);
    assert_eq!(plan.info.sessions.len(), 2);
    assert_eq!(plan.info.sessions[0].session_id, "a");
    assert_eq!(plan.info.sessions[0].project_path, "/p");
    assert_eq!(plan.info.sessions[1].session_id, "b");
    assert_eq!(plan.info.sessions[1].project_path, "/q");
    assert_eq!(plan.event.event_type, ServiceEventType::SessionUpdate);
    let published = plan.event.sessions.as_ref().unwrap();
    assert_eq!(published.len(), 2);
    assert_eq!(published[0].session_id, "a");
    assert_eq!(published[1].session_id, "b");
}
