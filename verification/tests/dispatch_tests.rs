use vlaude_core::dispatch::{
    classify_event, paginate, parse_order, plan_session_messages, plan_watch_event,
    read_messages_raw, respond_check_loading, respond_create_session, respond_project_data,
    respond_send_message, respond_session_messages, respond_session_metadata, session_file_path,
    window_values, ServerEventKind, WatchEventPlan,
};
use vlaude_core::error::SocketError;
use vlaude_core::events::{wire_name, DaemonEvent};
use vlaude_core::listing::{apply_limit, latest_is_recent, sort_indices_desc};
use vlaude_core::metrics::{calculate_metrics, MessageStat};
use vlaude_core::msgsync::{build_message_input, extract_message_input, join_texts, parse_i64};
use vlaude_core::strutil::u64_to_dec;
use vlaude_core::tail::SessionWatchEvent;
use vlaude_core::types::{debounce_millis, MessageKind, Order, WatchMode};

#[test]
fn test_watch_mode() {
    assert_eq!(WatchMode::Projects, WatchMode::Projects);
    assert_ne!(WatchMode::Projects, WatchMode::Sessions);
}

#[test]
fn test_debounce_millis() {
    assert_eq!(debounce_millis(WatchMode::Projects), 500);
    assert_eq!(debounce_millis(WatchMode::Sessions), 300);
    assert_eq!(debounce_millis(WatchMode::SessionContent), 100);
}

fn val(s: &str) -> serde_json::Value {
    serde_json::from_str(s).unwrap()
}

#[test]
fn test_classify_event_table() {
    assert_eq!(classify_event("server:requestProjectData"), ServerEventKind::RequestProjectData);
    assert_eq!(
        classify_event("server:requestSessionMetadata"),
        ServerEventKind::RequestSessionMetadata
    );
    assert_eq!(
        classify_event("server:requestSessionMessages"),
        ServerEventKind::RequestSessionMessages
    );
    assert_eq!(classify_event("server:startWatching"), ServerEventKind::StartWatching);
    assert_eq!(classify_event("server:stopWatching"), ServerEventKind::StopWatching);
    assert_eq!(classify_event("server:mobileViewing"), ServerEventKind::MobileViewing);
    assert_eq!(classify_event("server:resumeLocal"), ServerEventKind::ResumeLocal);
    assert_eq!(classify_event("server:watchNewSession"), ServerEventKind::WatchNewSession);
    assert_eq!(classify_event("server:findNewSession"), ServerEventKind::FindNewSession);
    assert_eq!(classify_event("server:sessionDiscovered"), ServerEventKind::SessionDiscovered);
    assert_eq!(classify_event("server:approvalResponse"), ServerEventKind::ApprovalResponse);
    assert_eq!(classify_event("server:command"), ServerEventKind::Command);
    assert_eq!(classify_event("server:createSession"), ServerEventKind::CreateSession);
    assert_eq!(classify_event("server:checkLoading"), ServerEventKind::CheckLoading);
    assert_eq!(classify_event("server:sendMessage"), ServerEventKind::SendMessage);
    assert_eq!(classify_event("server-shutdown"), ServerEventKind::ServerShutdown);
    assert_eq!(classify_event("__disconnected"), ServerEventKind::Disconnected);
    assert_eq!(classify_event("server:somethingElse"), ServerEventKind::Unknown);
}

#[test]
fn test_parse_order() {
    assert_eq!(parse_order(Some(&"desc".to_string())), Order::Desc);
    assert_eq!(parse_order(Some(&"asc".to_string())), Order::Asc);
    assert_eq!(parse_order(Some(&"anything".to_string())), Order::Asc);
    assert_eq!(parse_order(None), Order::Asc);
}

#[test]
fn test_paginate_bounds() {
    assert_eq!(paginate(10, 3, 0), (0, 3, true));
    assert_eq!(paginate(10, 3, 8), (8, 10, false));
    assert_eq!(paginate(10, 50, 0), (0, 10, false));
    assert_eq!(paginate(10, 3, 12), (10, 10, false));
    assert_eq!(paginate(0, 5, 0), (0, 0, false));
}

#[test]
fn test_window_values_desc() {
    let messages = vec![val("{\"n\":1}"), val("{\"n\":2}"), val("{\"n\":3}")];
    let w = window_values(messages, 2, 0, Order::Desc);
    assert_eq!(w.total, 3);
    assert!(w.has_more);
    assert_eq!(w.messages.len(), 2);
    assert_eq!(w.messages[0]["n"], 3);
    assert_eq!(w.messages[1]["n"], 2);
}

#[test]
fn test_read_messages_raw_counts_unterminated_line() {
    let data = b"{\"n\":1}\n{\"n\":2}\nnot json\n{\"n\":3}".to_vec();
    let w = read_messages_raw(&data, 10, 0, Order::Asc);
    assert_eq!(w.total, 3);
    assert!(!w.has_more);
    assert_eq!(w.messages[0]["n"], 1);
    assert_eq!(w.messages[1]["n"], 2);
    assert_eq!(w.messages[2]["n"], 3);
}

#[test]
fn test_session_messages_plan_builds_path() {
    let plan = plan_session_messages(
        "abc-123",
        "/u/a",
        None,
        "/home/me/projects",
        None,
        None,
        None,
        Some("r7".to_string()),
    )
    .unwrap();
    assert_eq!(plan.session_path, "/home/me/projects/-u-a/abc-123.jsonl");
    assert_eq!(plan.limit, 50);
    assert_eq!(plan.offset, 0);
    assert_eq!(plan.order, Order::Asc);
    assert_eq!(plan.request_id.as_deref(), Some("r7"));

    let cached = plan_session_messages(
        "abc-123",
        "/u/a",
        Some("-u-a-cached".to_string()),
        "/home/me/projects",
        Some(5),
        Some(2),
        Some(&"desc".to_string()),
        None,
    )
    .unwrap();
    assert_eq!(cached.session_path, "/home/me/projects/-u-a-cached/abc-123.jsonl");
    assert_eq!(cached.limit, 5);
    assert_eq!(cached.offset, 2);
    assert_eq!(cached.order, Order::Desc);
}

#[test]
fn test_session_messages_plan_rejects_traversal() {
    let r = plan_session_messages(
        "../etc/passwd",
        "/u/a",
        None,
        "/home/me/projects",
        None,
        None,
        None,
        None,
    );
    assert!(matches!(r, Err(SocketError::InvalidInput(_))));

    // The project directory segment is a path segment too.
    let r = plan_session_messages("S", "..", None, "/home/me/projects", None, None, None, None);
    assert!(matches!(r, Err(SocketError::InvalidInput(_))));
    let r = plan_session_messages("S", "", None, "/home/me/projects", None, None, None, None);
    assert!(matches!(r, Err(SocketError::InvalidInput(_))));
    let r = plan_session_messages(
        "S",
        "/u/a",
        Some("../up".to_string()),
        "/home/me/projects",
        None,
        None,
        None,
        None,
    );
    assert!(matches!(r, Err(SocketError::InvalidInput(_))));
}

#[test]
fn test_session_file_path() {
    assert_eq!(
        session_file_path("/home/me/projects", "-u-a", "S"),
        "/home/me/projects/-u-a/S.jsonl"
    );
}

#[test]
fn test_responses_echo_request_id() {
    let projects = vec![val("{\"p\":1}")];
    match respond_project_data(projects, Some("r1".to_string())) {
        DaemonEvent::ProjectData(p) => {
            assert_eq!(p.request_id.as_deref(), Some("r1"));
            assert_eq!(p.projects.len(), 1);
        },
        other => panic!("unexpected frame {:?}", other),
    }

    match respond_session_metadata(vec![], Some("/u/a".to_string()), Some("r2".to_string())) {
        DaemonEvent::SessionMetadata(p) => {
            assert_eq!(p.request_id.as_deref(), Some("r2"));
            assert_eq!(p.project_path.as_deref(), Some("/u/a"));
        },
        other => panic!("unexpected frame {:?}", other),
    }

    let window = read_messages_raw(&b"{\"n\":1}\n".to_vec(), 10, 0, Order::Asc);
    match respond_session_messages("S".to_string(), "/u/a".to_string(), window, Some("r3".to_string()))
    {
        DaemonEvent::SessionMessages(p) => {
            assert_eq!(p.request_id.as_deref(), Some("r3"));
            assert_eq!(p.session_id, "S");
            assert_eq!(p.total, 1);
            assert!(!p.has_more);
        },
        other => panic!("unexpected frame {:?}", other),
    }

    match respond_check_loading("r4".to_string()) {
        DaemonEvent::CheckLoadingResult(p) => {
            assert_eq!(p.request_id, "r4");
            assert!(!p.loading);
        },
        other => panic!("unexpected frame {:?}", other),
    }

    match respond_create_session("r5".to_string()) {
        DaemonEvent::SessionCreatedResult(p) => {
            assert_eq!(p.request_id, "r5");
            assert!(!p.success);
            assert!(p.error.is_some());
        },
        other => panic!("unexpected frame {:?}", other),
    }

    match respond_send_message("r6".to_string()) {
        DaemonEvent::SendMessageResult(p) => {
            assert_eq!(p.request_id, "r6");
            assert!(!p.success);
        },
        other => panic!("unexpected frame {:?}", other),
    }
}

#[test]
fn test_wire_names() {
    let f = respond_check_loading("r".to_string());
    assert_eq!(wire_name(&f), "daemon:checkLoadingResult");
    let f = respond_create_session("r".to_string());
    assert_eq!(wire_name(&f), "daemon:sessionCreatedResult");
    let f = respond_send_message("r".to_string());
    assert_eq!(wire_name(&f), "daemon:sendMessageResult");
    let f = respond_project_data(vec![], None);
    assert_eq!(wire_name(&f), "daemon:projectData");
    let online = DaemonEvent::Online(vlaude_core::events::OnlineData {
        timestamp: "t".to_string(),
    });
    assert_eq!(wire_name(&online), "daemon:etermOnline");
    let offline = DaemonEvent::Offline(vlaude_core::events::OfflineData {
        timestamp: "t".to_string(),
    });
    assert_eq!(wire_name(&offline), "daemon:etermOffline");
    let register = DaemonEvent::Register(vlaude_core::events::RegisterData {
        hostname: "h1".to_string(),
        platform: "linux".to_string(),
        version: "1".to_string(),
    });
    assert_eq!(wire_name(&register), "daemon:register");
    assert_eq!(wire_name(&DaemonEvent::ProjectListUpdate), "daemon:projectListUpdate");
    assert_eq!(
        wire_name(&DaemonEvent::SessionListUpdate { project_path: "/u/a".to_string() }),
        "daemon:sessionListUpdate"
    );
}

#[test]
fn test_plan_watch_event() {
    let ev = SessionWatchEvent::NewMessage {
        session_id: "S".to_string(),
        project_path: "/u/a".to_string(),
        message: val("{\"type\":\"user\"}"),
    };
    match plan_watch_event(ev, true, "t0".to_string()) {
        WatchEventPlan::Send { frame, persist } => {
            assert!(persist);
            assert_eq!(wire_name(&frame), "daemon:newMessage");
            match frame {
                DaemonEvent::NewMessage(p) => {
                    assert_eq!(p.session_id, "S");
                    assert_eq!(p.message["type"], "user");
                    assert_eq!(p.timestamp, "t0");
                },
                other => panic!("unexpected frame {:?}", other),
            }
        },
        WatchEventPlan::LogOnly => panic!("expected a frame"),
    }

    let ev = SessionWatchEvent::SessionDeleted {
        session_id: "S".to_string(),
        project_path: "/u/a".to_string(),
    };
    match plan_watch_event(ev, false, "t0".to_string()) {
        WatchEventPlan::Send { frame, persist } => {
            assert!(!persist);
            assert_eq!(wire_name(&frame), "daemon:sessionDeleted");
        },
        WatchEventPlan::LogOnly => panic!("expected a frame"),
    }

    let ev = SessionWatchEvent::Error { session_id: "S".to_string(), error: "e".to_string() };
    assert!(matches!(plan_watch_event(ev, true, "t0".to_string()), WatchEventPlan::LogOnly));
}

#[test]
fn test_calculate_metrics() {
    let stats = vec![
        MessageStat { kind: MessageKind::User, content_len: 10 },
        MessageStat { kind: MessageKind::Assistant, content_len: 30 },
        MessageStat { kind: MessageKind::User, content_len: 5 },
    ];
    let created = "2024-01-01T00:00:00Z".to_string();
    let updated = "2024-01-01T00:01:40Z".to_string();
    let m = calculate_metrics(&stats, Some(&created), Some(&updated));
    assert_eq!(m.message_count, 3);
    assert_eq!(m.user_message_count, 2);
    assert_eq!(m.assistant_message_count, 1);
    assert_eq!(m.estimated_tokens, 11);
    assert_eq!(m.duration_seconds, Some(100));

    let bad = "yesterday".to_string();
    let m = calculate_metrics(&stats, Some(&bad), Some(&updated));
    assert_eq!(m.duration_seconds, None);
    let m = calculate_metrics(&stats, None, Some(&updated));
    assert_eq!(m.duration_seconds, None);
}

#[test]
fn test_build_message_input() {
    let ts = "12345".to_string();
    let kind_str = "assistant".to_string();
    let m = build_message_input(
        "u-1".to_string(),
        Some(&kind_str),
        "hi".to_string(),
        Some(&ts),
        Some("{}".to_string()),
        999,
        "cli",
    )
    .unwrap();
    assert_eq!(m.uuid, "u-1");
    assert_eq!(m.kind, MessageKind::Assistant);
    assert_eq!(m.timestamp, 12345);
    assert_eq!(m.source.as_deref(), Some("cli"));
    assert_eq!(m.channel.as_deref(), Some("code"));

    // A malformed timestamp falls back to the wall clock.
    let bad_ts = "soon".to_string();
    let m = build_message_input(
        "u-2".to_string(),
        None,
        "hi".to_string(),
        Some(&bad_ts),
        None,
        999,
        "cli",
    )
    .unwrap();
    assert_eq!(m.kind, MessageKind::User);
    assert_eq!(m.timestamp, 999);

    // Records without a uuid are skipped.
    assert!(
        build_message_input("".to_string(), None, "x".to_string(), None, None, 0, "cli")
            .is_none()
    );
}

#[test]
fn test_extract_message_input_joins_content() {
    let message = val(
        "{\"uuid\":\"u-3\",\"type\":\"assistant\",\"timestamp\":\"7\",\
         \"message\":{\"content\":[{\"text\":\"a\"},{\"other\":1},{\"text\":\"b\"}]}}",
    );
    let m = extract_message_input(&message, 0, "cli").unwrap();
    assert_eq!(m.uuid, "u-3");
    assert_eq!(m.kind, MessageKind::Assistant);
    assert_eq!(m.content, "a\nb");
    assert_eq!(m.timestamp, 7);
    assert!(m.raw.is_some());

    let no_uuid = val("{\"type\":\"user\"}");
    assert!(extract_message_input(&no_uuid, 0, "cli").is_none());
}

#[test]
fn test_join_texts() {
    let parts = vec![Some("a".to_string()), None, Some("b".to_string()), Some("c".to_string())];
    assert_eq!(join_texts(&parts), "a\nb\nc");
    let empty: Vec<Option<String>> = vec![];
    assert_eq!(join_texts(&empty), "");
    let only_none: Vec<Option<String>> = vec![None, None];
    assert_eq!(join_texts(&only_none), "");
}

#[test]
fn test_parse_i64() {
    assert_eq!(parse_i64("42"), Some(42));
    assert_eq!(parse_i64("-7"), Some(-7));
    assert_eq!(parse_i64("+5"), Some(5));
    assert_eq!(parse_i64("4.2"), None);
    assert_eq!(parse_i64(""), None);
    assert_eq!(parse_i64("-"), None);
    assert_eq!(parse_i64("+"), None);
    assert_eq!(parse_i64(" 1"), None);
    assert_eq!(parse_i64("007"), Some(7));
    // The representable boundary, both sides.
    assert_eq!(parse_i64("9223372036854775807"), Some(i64::MAX));
    assert_eq!(parse_i64("-9223372036854775808"), Some(i64::MIN));
    assert_eq!(parse_i64("9223372036854775808"), None);
    assert_eq!(parse_i64("-9223372036854775809"), None);
    assert_eq!(parse_i64("99999999999999999999999"), None);
    // The same answers std's parser gives.
    for s in ["42", "-7", "+5", "4.2", "", "-", "007", "9223372036854775808"] {
        assert_eq!(parse_i64(s), s.parse::<i64>().ok());
    }
}

#[test]
fn test_sort_indices_desc_stable() {
    let keys = vec![5u64, 9, 5, 1, 9];
    let order = sort_indices_desc(&keys);
    assert_eq!(order, vec![1, 4, 0, 2, 3]);
    let limited = apply_limit(order, Some(2));
    assert_eq!(limited, vec![1, 4]);
}

#[test]
fn test_u64_to_dec() {
    assert_eq!(u64_to_dec(0), "0");
    assert_eq!(u64_to_dec(10005), "10005");
    assert_eq!(u64_to_dec(18446744073709551615), "18446744073709551615");
}

#[test]
fn test_latest_is_recent() {
    // No window: always recent.
    assert!(latest_is_recent(Some(0), 1_000_000, None));
    // No known mtime: passes.
    assert!(latest_is_recent(None, 1_000_000, Some(1)));
    // Within the window.
    assert!(latest_is_recent(Some(999_000), 1_000_000, Some(1)));
    // Outside the window.
    assert!(!latest_is_recent(Some(0), 1_000_000, Some(1)));
}
