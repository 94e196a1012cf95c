//! The wire events between daemon and server: payload shapes, the frame
//! catalogue, and the stable event names.
//!
//! `wire_name` pins each outbound frame to its wire event name, so handler
//! code cannot misspell one.

use vstd::prelude::*;
use serde_json::Value;

verus! {

// ==================== Upstream payloads (daemon → server) ====================

#[derive(Debug, Clone)]
pub struct RegisterData {
    pub hostname: String,
    pub platform: String,
    pub version: String,
}

#[derive(Debug, Clone)]
pub struct OnlineData {
    pub timestamp: String,
}

#[derive(Debug, Clone)]
pub struct OfflineData {
    pub timestamp: String,
}

#[derive(Debug)]
pub struct ProjectDataPayload {
    pub projects: Vec<Value>,
    pub request_id: Option<String>,
}

#[derive(Debug)]
pub struct SessionMetadataPayload {
    pub sessions: Vec<Value>,
    pub project_path: Option<String>,
    pub request_id: Option<String>,
}

#[derive(Debug, Clone)]
pub struct SessionAvailableData {
    pub session_id: String,
    pub project_path: String,
    pub timestamp: String,
}

#[derive(Debug, Clone)]
pub struct SessionUnavailableData {
    pub session_id: String,
    pub timestamp: String,
}

#[derive(Debug)]
pub struct NewMessageData {
    pub session_id: String,
    pub message: Value,
    pub timestamp: String,
}

#[derive(Debug)]
pub struct MetricsUpdateData {
    pub session_id: String,
    pub metrics: Value,
    pub timestamp: String,
}

#[derive(Debug)]
pub struct SessionMessagesPayload {
    pub session_id: String,
    pub project_path: String,
    pub messages: Vec<Value>,
    pub total: usize,
    pub has_more: bool,
    pub request_id: Option<String>,
}

#[derive(Debug, Clone)]
pub struct NewSessionFoundData {
    pub client_id: String,
    pub session_id: String,
    pub project_path: String,
    pub encoded_dir_name: String,
}

#[derive(Debug, Clone)]
pub struct NewSessionNotFoundData {
    pub client_id: String,
    pub project_path: String,
}

#[derive(Debug, Clone)]
pub struct WatchStartedData {
    pub client_id: String,
    pub project_path: String,
}

#[derive(Debug, Clone)]
pub struct NewSessionCreatedData {
    pub client_id: String,
    pub session_id: String,
    pub project_path: String,
}

#[derive(Debug)]
pub struct ProjectUpdateData {
    pub project_path: String,
    pub metadata: Option<Value>,
}

#[derive(Debug)]
pub struct SessionUpdateData {
    pub session_id: String,
    pub metadata: Value,
}

#[derive(Debug, Clone)]
pub struct SessionDetailUpdateData {
    pub session_id: String,
    pub project_path: String,
}

#[derive(Debug, Clone)]
pub struct SessionRestoredData {
    pub session_id: String,
    pub project_path: String,
}

#[derive(Debug, Clone)]
pub struct SessionDeletedData {
    pub session_id: String,
    pub project_path: String,
}

#[derive(Debug)]
pub struct ApprovalRequestData {
    pub request_id: String,
    pub session_id: String,
    pub client_id: String,
    pub tool_name: String,
    pub input: Value,
    pub tool_use_id: String,
    pub description: String,
}

#[derive(Debug, Clone)]
pub struct ApprovalTimeoutData {
    pub request_id: String,
    pub session_id: String,
    pub client_id: String,
}

#[derive(Debug, Clone)]
pub struct ApprovalExpiredData {
    pub request_id: String,
    pub message: String,
}

#[derive(Debug, Clone)]
pub struct SdkErrorInfo {
    pub error_type: String,
    pub message: String,
}

#[derive(Debug, Clone)]
pub struct SdkErrorData {
    pub session_id: String,
    pub client_id: String,
    pub error: SdkErrorInfo,
}

#[derive(Debug, Clone)]
pub struct SwiftActivityData {
    pub session_id: String,
    pub project_path: String,
}

#[derive(Debug, Clone)]
pub struct SessionCreatedResultData {
    pub request_id: String,
    pub success: bool,
    pub session_id: Option<String>,
    pub encoded_dir_name: Option<String>,
    pub transcript_path: Option<String>,
    pub error: Option<String>,
}

#[derive(Debug, Clone)]
pub struct CheckLoadingResultData {
    pub request_id: String,
    pub loading: bool,
}

#[derive(Debug, Clone)]
pub struct SendMessageResultData {
    pub request_id: String,
    pub success: bool,
    pub message: Option<String>,
    pub via: Option<String>,
}

// ==================== Downstream payloads (server → daemon) ====================

#[derive(Debug, Clone)]
pub struct RequestProjectDataPayload {
    pub limit: Option<usize>,
    pub request_id: Option<String>,
}

#[derive(Debug, Clone)]
pub struct RequestSessionMetadataPayload {
    pub project_path: Option<String>,
    pub limit: Option<usize>,
    pub request_id: Option<String>,
}

#[derive(Debug, Clone)]
pub struct RequestMessagesPayload {
    pub session_id: String,
    pub project_path: String,
    pub limit: usize,
    pub offset: usize,
    pub order: Option<String>,
    pub request_id: Option<String>,
}

#[derive(Debug, Clone)]
pub struct WatchingPayload {
    pub session_id: String,
    pub project_path: String,
}

#[derive(Debug, Clone)]
pub struct MobileViewingPayload {
    pub session_id: String,
    pub is_viewing: bool,
}

#[derive(Debug, Clone)]
pub struct ResumeLocalPayload {
    pub session_id: String,
}

#[derive(Debug, Clone)]
pub struct WatchNewSessionPayload {
    pub client_id: String,
    pub project_path: String,
}

#[derive(Debug, Clone)]
pub struct FindNewSessionPayload {
    pub client_id: String,
    pub project_path: String,
}

#[derive(Debug, Clone)]
pub struct SessionDiscoveredPayload {
    pub project_path: String,
    pub session_id: String,
}

#[derive(Debug, Clone)]
pub struct ApprovalResponsePayload {
    pub request_id: String,
    pub approved: bool,
    pub reason: Option<String>,
}

#[derive(Debug)]
pub struct ServerCommandPayload {
    pub command: String,
    pub data: Option<Value>,
}

/// A server-initiated event, decoded.
#[derive(Debug)]
pub enum ServerEvent {
    RequestProjectData(RequestProjectDataPayload),
    RequestSessionMetadata(RequestSessionMetadataPayload),
    RequestSessionMessages(RequestMessagesPayload),
    StartWatching(WatchingPayload),
    StopWatching(WatchingPayload),
    MobileViewing(MobileViewingPayload),
    ServerShutdown,
}

// ==================== The outbound frame catalogue ====================

/// One daemon-initiated frame, with its payload.
#[derive(Debug)]
pub enum DaemonEvent {
    Register(RegisterData),
    Online(OnlineData),
    Offline(OfflineData),
    ProjectData(ProjectDataPayload),
    SessionMetadata(SessionMetadataPayload),
    SessionMessages(SessionMessagesPayload),
    SessionAvailable(SessionAvailableData),
    SessionUnavailable(SessionUnavailableData),
    NewMessage(NewMessageData),
    MetricsUpdate(MetricsUpdateData),
    ProjectListUpdate,
    SessionListUpdate { project_path: String },
    SessionDeleted(SessionDeletedData),
    SessionDetailUpdate(SessionDetailUpdateData),
    SessionRestored(SessionRestoredData),
    ProjectUpdate(ProjectUpdateData),
    SessionUpdate(SessionUpdateData),
    NewSessionFound(NewSessionFoundData),
    NewSessionNotFound(NewSessionNotFoundData),
    WatchStarted(WatchStartedData),
    NewSessionCreated(NewSessionCreatedData),
    ApprovalRequest(ApprovalRequestData),
    ApprovalTimeout(ApprovalTimeoutData),
    ApprovalExpired(ApprovalExpiredData),
    SdkError(SdkErrorData),
    SwiftActivity(SwiftActivityData),
    SessionCreatedResult(SessionCreatedResultData),
    CheckLoadingResult(CheckLoadingResultData),
    SendMessageResult(SendMessageResultData),
}

/// The wire name each outbound frame travels under.
pub open spec fn wire_name_spec(e: &DaemonEvent) -> Seq<char> {
    match e {
        DaemonEvent::Register(_) => "daemon:register"@,
        DaemonEvent::Online(_) => "daemon:etermOnline"@,
        DaemonEvent::Offline(_) => "daemon:etermOffline"@,
        DaemonEvent::ProjectData(_) => "daemon:projectData"@,
        DaemonEvent::SessionMetadata(_) => "daemon:sessionMetadata"@,
        DaemonEvent::SessionMessages(_) => "daemon:sessionMessages"@,
        DaemonEvent::SessionAvailable(_) => "daemon:sessionAvailable"@,
        DaemonEvent::SessionUnavailable(_) => "daemon:sessionUnavailable"@,
        DaemonEvent::NewMessage(_) => "daemon:newMessage"@,
        DaemonEvent::MetricsUpdate(_) => "daemon:metricsUpdate"@,
        DaemonEvent::ProjectListUpdate => "daemon:projectListUpdate"@,
        DaemonEvent::SessionListUpdate { .. } => "daemon:sessionListUpdate"@,
        DaemonEvent::SessionDeleted(_) => "daemon:sessionDeleted"@,
        DaemonEvent::SessionDetailUpdate(_) => "daemon:sessionDetailUpdate"@,
        DaemonEvent::SessionRestored(_) => "daemon:sessionRestored"@,
        DaemonEvent::ProjectUpdate(_) => "daemon:projectUpdate"@,
        DaemonEvent::SessionUpdate(_) => "daemon:sessionUpdate"@,
        DaemonEvent::NewSessionFound(_) => "daemon:newSessionFound"@,
        DaemonEvent::NewSessionNotFound(_) => "daemon:newSessionNotFound"@,
        DaemonEvent::WatchStarted(_) => "daemon:watchStarted"@,
        DaemonEvent::NewSessionCreated(_) => "daemon:newSessionCreated"@,
        DaemonEvent::ApprovalRequest(_) => "daemon:approvalRequest"@,
        DaemonEvent::ApprovalTimeout(_) => "daemon:approvalTimeout"@,
        DaemonEvent::ApprovalExpired(_) => "daemon:approvalExpired"@,
        DaemonEvent::SdkError(_) => "daemon:sdkError"@,
        DaemonEvent::SwiftActivity(_) => "daemon:swiftActivity"@,
        DaemonEvent::SessionCreatedResult(_) => "daemon:sessionCreatedResult"@,
        DaemonEvent::CheckLoadingResult(_) => "daemon:checkLoadingResult"@,
        DaemonEvent::SendMessageResult(_) => "daemon:sendMessageResult"@,
    }
}

/// The request id an outbound frame echoes, when it answers a request.
pub open spec fn frame_request_id(e: &DaemonEvent) -> Option<Seq<char>> {
    match e {
        DaemonEvent::ProjectData(p) => match p.request_id {
            Some(id) => Some(id@),
            None => None,
        },
        DaemonEvent::SessionMetadata(p) => match p.request_id {
            Some(id) => Some(id@),
            None => None,
        },
        DaemonEvent::SessionMessages(p) => match p.request_id {
            Some(id) => Some(id@),
            None => None,
        },
        DaemonEvent::SessionCreatedResult(p) => Some(p.request_id@),
        DaemonEvent::CheckLoadingResult(p) => Some(p.request_id@),
        DaemonEvent::SendMessageResult(p) => Some(p.request_id@),
        _ => None,
    }
}

/// The wire name of an outbound frame.
pub fn wire_name(e: &DaemonEvent) -> (r: &'static str)
    ensures
        r@ == wire_name_spec(e),
{
    match e {
        DaemonEvent::Register(_) => "daemon:register",
        DaemonEvent::Online(_) => "daemon:etermOnline",
        DaemonEvent::Offline(_) => "daemon:etermOffline",
        DaemonEvent::ProjectData(_) => "daemon:projectData",
        DaemonEvent::SessionMetadata(_) => "daemon:sessionMetadata",
        DaemonEvent::SessionMessages(_) => "daemon:sessionMessages",
        DaemonEvent::SessionAvailable(_) => "daemon:sessionAvailable",
        DaemonEvent::SessionUnavailable(_) => "daemon:sessionUnavailable",
        DaemonEvent::NewMessage(_) => "daemon:newMessage",
        DaemonEvent::MetricsUpdate(_) => "daemon:metricsUpdate",
        DaemonEvent::ProjectListUpdate => "daemon:projectListUpdate",
        DaemonEvent::SessionListUpdate { .. } => "daemon:sessionListUpdate",
        DaemonEvent::SessionDeleted(_) => "daemon:sessionDeleted",
        DaemonEvent::SessionDetailUpdate(_) => "daemon:sessionDetailUpdate",
        DaemonEvent::SessionRestored(_) => "daemon:sessionRestored",
        DaemonEvent::ProjectUpdate(_) => "daemon:projectUpdate",
        DaemonEvent::SessionUpdate(_) => "daemon:sessionUpdate",
        DaemonEvent::NewSessionFound(_) => "daemon:newSessionFound",
        DaemonEvent::NewSessionNotFound(_) => "daemon:newSessionNotFound",
        DaemonEvent::WatchStarted(_) => "daemon:watchStarted",
        DaemonEvent::NewSessionCreated(_) => "daemon:newSessionCreated",
        DaemonEvent::ApprovalRequest(_) => "daemon:approvalRequest",
        DaemonEvent::ApprovalTimeout(_) => "daemon:approvalTimeout",
        DaemonEvent::ApprovalExpired(_) => "daemon:approvalExpired",
        DaemonEvent::SdkError(_) => "daemon:sdkError",
        DaemonEvent::SwiftActivity(_) => "daemon:swiftActivity",
        DaemonEvent::SessionCreatedResult(_) => "daemon:sessionCreatedResult",
        DaemonEvent::CheckLoadingResult(_) => "daemon:checkLoadingResult",
        DaemonEvent::SendMessageResult(_) => "daemon:sendMessageResult",
    }
}

} // verus!
