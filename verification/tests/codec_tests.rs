use vlaude_core::paths::{
    decode_path, encode_path, extract_project_name, project_name_of, validate_path_component,
};
use vlaude_core::error::SocketError;

#[test]
fn test_decode_path() {
    assert_eq!(decode_path("-Users-xxx-project"), "/Users/xxx/project");
    assert_eq!(decode_path("foo-bar"), "foo/bar");
}

#[test]
fn test_encode_path() {
    assert_eq!(encode_path("/Users/xxx/project"), "-Users-xxx-project");
    assert_eq!(encode_path("foo/bar"), "foo-bar");
}

#[test]
fn test_extract_project_name() {
    assert_eq!(extract_project_name("/Users/xxx/project"), "project");
    assert_eq!(extract_project_name("/a/b/c/d"), "d");
}

#[test]
fn test_encode_decode_path() {
    let original = "/Users/test/project";
    let encoded = encode_path(original);
    let decoded = decode_path(&encoded);
    assert_eq!(decoded, original);
}

#[test]
fn test_validate_accepts_plain_ids() {
    assert!(validate_path_component("abc-123", "session_id").is_ok());
    assert!(validate_path_component("session.jsonl", "session_id").is_ok());
    assert!(validate_path_component("a.b", "session_id").is_ok());
}

#[test]
fn test_validate_rejects_traversal() {
    assert!(validate_path_component("", "session_id").is_err());
    assert!(validate_path_component("../etc/passwd", "session_id").is_err());
    assert!(validate_path_component("/etc/passwd", "session_id").is_err());
    assert!(validate_path_component("abc\0def", "session_id").is_err());
    let err = validate_path_component("..", "session_id").unwrap_err();
    assert!(matches!(err, SocketError::InvalidInput(_)));
}

#[test]
fn test_project_name_of() {
    assert_eq!(project_name_of("/Users/xxx/project"), "project");
    assert_eq!(project_name_of("/a/b/"), "b");
    assert_eq!(project_name_of("a//b"), "b");
    assert_eq!(project_name_of("///"), "///");
    assert_eq!(project_name_of("plain"), "plain");
}
