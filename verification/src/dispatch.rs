//! Server-event dispatch: naming the incoming event, validating what it
//! carries, windowing transcript records, and building the response frame
//! that echoes the request id.

use vstd::prelude::*;
use vstd::string::*;
use crate::error::SocketError;
use crate::events::{
    CheckLoadingResultData, DaemonEvent, NewMessageData, ProjectDataPayload,
    SendMessageResultData, SessionCreatedResultData, SessionDeletedData, SessionMessagesPayload,
    SessionMetadataPayload, frame_request_id,
};
use crate::jsonval::{json_clone, json_parse};
use crate::paths::{encode_path, encode_path_spec, valid_path_component, validate_path_component};
use crate::strutil::str_eq;
use crate::tail::{
    complete_lines, consumed_len, lemma_parsed_records_len, parse_count, parsed_records,
    SessionWatchEvent,
};
use crate::types::{Order, RawMessagesResult};

verus! {

// ---------------------------------------------------------------------------
// Naming the incoming event.

/// Which handler a server-initiated event belongs to.
#[derive(Debug, Clone, Copy, PartialEq, Eq, Structural)]
pub enum ServerEventKind {
    RequestProjectData,
    RequestSessionMetadata,
    RequestSessionMessages,
    StartWatching,
    StopWatching,
    MobileViewing,
    ResumeLocal,
    WatchNewSession,
    FindNewSession,
    SessionDiscovered,
    ApprovalResponse,
    Command,
    CreateSession,
    CheckLoading,
    SendMessage,
    ServerShutdown,
    Disconnected,
    Unknown,
}

/// The dispatch table: one handler per wire name, everything else is
/// logged and ignored.
pub open spec fn classify_event_spec(name: Seq<char>) -> ServerEventKind {
    if name == "server:requestProjectData"@ {
        ServerEventKind::RequestProjectData
    } else if name == "server:requestSessionMetadata"@ {
        ServerEventKind::RequestSessionMetadata
    } else if name == "server:requestSessionMessages"@ {
        ServerEventKind::RequestSessionMessages
    } else if name == "server:startWatching"@ {
        ServerEventKind::StartWatching
    } else if name == "server:stopWatching"@ {
        ServerEventKind::StopWatching
    } else if name == "server:mobileViewing"@ {
        ServerEventKind::MobileViewing
    } else if name == "server:resumeLocal"@ {
        ServerEventKind::ResumeLocal
    } else if name == "server:watchNewSession"@ {
        ServerEventKind::WatchNewSession
    } else if name == "server:findNewSession"@ {
        ServerEventKind::FindNewSession
    } else if name == "server:sessionDiscovered"@ {
        ServerEventKind::SessionDiscovered
    } else if name == "server:approvalResponse"@ {
        ServerEventKind::ApprovalResponse
    } else if name == "server:command"@ {
        ServerEventKind::Command
    } else if name == "server:createSession"@ {
        ServerEventKind::CreateSession
    } else if name == "server:checkLoading"@ {
        ServerEventKind::CheckLoading
    } else if name == "server:sendMessage"@ {
        ServerEventKind::SendMessage
    } else if name == "server-shutdown"@ {
        ServerEventKind::ServerShutdown
    } else if name == "__disconnected"@ {
        ServerEventKind::Disconnected
    } else {
        ServerEventKind::Unknown
    }
}

/// Name the handler for an incoming event.
pub fn classify_event(name: &str) -> (r: ServerEventKind)
    ensures
        r == classify_event_spec(name@),
{
    if str_eq(name, "server:requestProjectData") {
        ServerEventKind::RequestProjectData
    } else if str_eq(name, "server:requestSessionMetadata") {
        ServerEventKind::RequestSessionMetadata
    } else if str_eq(name, "server:requestSessionMessages") {
        ServerEventKind::RequestSessionMessages
    } else if str_eq(name, "server:startWatching") {
        ServerEventKind::StartWatching
    } else if str_eq(name, "server:stopWatching") {
        ServerEventKind::StopWatching
    } else if str_eq(name, "server:mobileViewing") {
        ServerEventKind::MobileViewing
    } else if str_eq(name, "server:resumeLocal") {
        ServerEventKind::ResumeLocal
    } else if str_eq(name, "server:watchNewSession") {
        ServerEventKind::WatchNewSession
    } else if str_eq(name, "server:findNewSession") {
        ServerEventKind::FindNewSession
    } else if str_eq(name, "server:sessionDiscovered") {
        ServerEventKind::SessionDiscovered
    } else if str_eq(name, "server:approvalResponse") {
        ServerEventKind::ApprovalResponse
    } else if str_eq(name, "server:command") {
        ServerEventKind::Command
    } else if str_eq(name, "server:createSession") {
        ServerEventKind::CreateSession
    } else if str_eq(name, "server:checkLoading") {
        ServerEventKind::CheckLoading
    } else if str_eq(name, "server:sendMessage") {
        ServerEventKind::SendMessage
    } else if str_eq(name, "server-shutdown") {
        ServerEventKind::ServerShutdown
    } else if str_eq(name, "__disconnected") {
        ServerEventKind::Disconnected
    } else {
        ServerEventKind::Unknown
    }
}

/// Read a window order: `desc` reverses, anything else reads forward.
pub fn parse_order(order: Option<&String>) -> (r: Order)
    ensures
        r == (if order matches Some(o) && o@ == "desc"@ {
            Order::Desc
        } else {
            Order::Asc
        }),
{
    match order {
        Some(o) => if str_eq(o.as_str(), "desc") {
            Order::Desc
        } else {
            Order::Asc
        },
        None => Order::Asc,
    }
}

// ---------------------------------------------------------------------------
// Windowing transcript records.

/// The window `[start, end)` a limit and offset select from `total`
/// records, and whether records remain past it.
pub open spec fn window_spec(total: int, limit: int, offset: int) -> (int, int, bool) {
    let start = if offset < total {
        offset
    } else {
        total
    };
    let end = if offset + limit < total {
        offset + limit
    } else {
        total
    };
    (start, end, end < total)
}

/// Select the window bounds.
pub fn paginate(total: usize, limit: usize, offset: usize) -> (r: (usize, usize, bool))
    ensures
        (r.0 as int, r.1 as int, r.2) == window_spec(total as int, limit as int, offset as int),
{
    let start = if offset < total {
        offset
    } else {
        total
    };
    let remaining = total - start;
    let take = if limit < remaining {
        limit
    } else {
        remaining
    };
    let end = start + take;
    (start, end, end < total)
}

/// Cut the requested window out of the records: newest first when
/// descending, and exactly the records the bounds select.
pub fn window_values(messages: Vec<serde_json::Value>, limit: usize, offset: usize, order: Order)
    -> (r: RawMessagesResult)
    ensures
        r.total == messages@.len(),
        ({
            let (start, end, has_more) = window_spec(
                messages@.len() as int,
                limit as int,
                offset as int,
            );
            &&& r.has_more == has_more
            &&& r.messages@.len() == end - start
            &&& (order == Order::Asc ==> forall|j: int|
                0 <= j < r.messages@.len() ==> r.messages@[j] == messages@[start + j])
            &&& (order == Order::Desc ==> forall|j: int|
                0 <= j < r.messages@.len() ==> r.messages@[j] == messages@.index(
                    messages@.len() - 1 - start - j,
                ))
        }),
{
    let total = messages.len();
    let (start, end, has_more) = paginate(total, limit, offset);
    let mut out: Vec<serde_json::Value> = Vec::new();
    let mut j: usize = 0;
    while j < end - start
        invariant
            start <= end <= total,
            total == messages@.len(),
            j <= end - start,
            out@.len() == j,
            order == Order::Asc ==> forall|i: int| 0 <= i < j ==> out@[i] == messages@[start + i],
            order == Order::Desc ==> forall|i: int|
                0 <= i < j ==> out@[i] == messages@[total - 1 - start - i],
        decreases end - start - j,
    {
        let v = match order {
            Order::Asc => json_clone(&messages[start + j]),
            Order::Desc => json_clone(&messages[total - 1 - start - j]),
        };
        out.push(v);
        j = j + 1;
    }
    RawMessagesResult { messages: out, total, has_more }
}

/// Every line of the file, the unterminated last one included.
pub open spec fn all_lines(data: Seq<u8>) -> Seq<Seq<u8>> {
    let rest = data.subrange(consumed_len(data) as int, data.len() as int);
    if rest.len() > 0 {
        complete_lines(data).push(rest)
    } else {
        complete_lines(data)
    }
}

/// Parse every line of a whole transcript file: exactly the parses of
/// its parseable lines, in file order.
pub fn parse_all_lines(data: &Vec<u8>) -> (r: Vec<serde_json::Value>)
    ensures
        r@ == parsed_records(all_lines(data@)),
        r@.len() == parse_count(all_lines(data@)),
{
    let (mut records, consumed) = crate::tail::read_incremental(data);
    proof {
        crate::tail::lemma_consumed_le_len(data@);
    }
    if consumed < data.len() {
        let mut rest: Vec<u8> = Vec::new();
        let mut i: usize = consumed;
        let n = data.len();
        while i < n
            invariant
                consumed <= i <= n,
                n == data@.len(),
                rest@ == data@.subrange(consumed as int, i as int),
            decreases n - i,
        {
            rest.push(data[i]);
            proof {
                assert(rest@ =~= data@.subrange(consumed as int, i + 1));
            }
            i = i + 1;
        }
        proof {
            let lines = complete_lines(data@);
            let tail = data@.subrange(consumed as int, n as int);
            assert(all_lines(data@) == lines.push(tail));
            assert(lines.push(tail).drop_last() =~= lines);
        }
        if let Some(v) = json_parse(&rest) {
            records.push(v);
        }
    } else {
        proof {
            assert(data@.subrange(consumed as int, data@.len() as int).len() == 0);
        }
    }
    proof {
        lemma_parsed_records_len(all_lines(data@));
    }
    records
}

/// Read a window of raw records out of a transcript file's bytes: every
/// parseable line counts toward the total, and the window holds exactly
/// the selected records' parses — forward, or newest first when
/// descending.
pub fn read_messages_raw(data: &Vec<u8>, limit: usize, offset: usize, order: Order) -> (r:
    RawMessagesResult)
    ensures
        r.total == parse_count(all_lines(data@)),
        ({
            let recs = parsed_records(all_lines(data@));
            let (start, end, has_more) = window_spec(
                recs.len() as int,
                limit as int,
                offset as int,
            );
            &&& r.total == recs.len()
            &&& r.has_more == has_more
            &&& r.messages@.len() == end - start
            &&& (order == Order::Asc ==> forall|j: int|
                0 <= j < r.messages@.len() ==> r.messages@[j] == recs[start + j])
            &&& (order == Order::Desc ==> forall|j: int|
                0 <= j < r.messages@.len() ==> r.messages@[j] == recs.index(
                    recs.len() - 1 - start - j,
                ))
        }),
{
    let records = parse_all_lines(data);
    window_values(records, limit, offset, order)
}

// ---------------------------------------------------------------------------
// The session-messages request.

pub open spec fn session_file_path_spec(
    projects_root: Seq<char>,
    encoded_dir: Seq<char>,
    session_id: Seq<char>,
) -> Seq<char> {
    projects_root + "/"@ + encoded_dir + "/"@ + session_id + ".jsonl"@
}

/// The transcript file a session lives in, under the configured projects
/// root.  Both identifiers become path segments, so the caller must have
/// validated them.
pub fn session_file_path(projects_root: &str, encoded_dir: &str, session_id: &str) -> (r: String)
    requires
        valid_path_component(encoded_dir@),
        valid_path_component(session_id@),
    ensures
        r@ == session_file_path_spec(projects_root@, encoded_dir@, session_id@),
{
    String::from_str(projects_root).concat("/").concat(encoded_dir).concat("/").concat(
        session_id,
    ).concat(".jsonl")
}

/// Everything the caller needs to serve a message window: which file to
/// read and how to cut the window.
pub struct SessionMessagesPlan {
    pub session_id: String,
    pub project_path: String,
    pub session_path: String,
    pub limit: usize,
    pub offset: usize,
    pub order: Order,
    pub request_id: Option<String>,
}

/// Decide how to serve a `requestSessionMessages` event.  Both
/// identifiers become path segments: a session id, or a project
/// directory segment, that is empty or could escape the projects
/// directory is rejected with `InvalidInput` and nothing is sent.  The
/// transcript path is built from the cached directory encoding when one
/// is known, else from the project path itself.
pub fn plan_session_messages(
    session_id: &str,
    project_path: &str,
    encoded_dir: Option<String>,
    projects_root: &str,
    limit: Option<u64>,
    offset: Option<u64>,
    order: Option<&String>,
    request_id: Option<String>,
) -> (r: Result<SessionMessagesPlan, SocketError>)
    ensures
        r is Ok <==> valid_path_component(session_id@) && valid_path_component(
            match encoded_dir {
                Some(e) => e@,
                None => encode_path_spec(project_path@),
            },
        ),
        r matches Err(e) ==> e matches SocketError::InvalidInput(_),
        r matches Ok(plan) ==> {
            &&& plan.session_id@ == session_id@
            &&& plan.project_path@ == project_path@
            &&& plan.session_path@ == session_file_path_spec(
                projects_root@,
                match encoded_dir {
                    Some(e) => e@,
                    None => encode_path_spec(project_path@),
                },
                session_id@,
            )
            &&& plan.limit == (match limit {
                Some(l) => l as usize,
                None => 50usize,
            })
            &&& plan.offset == (match offset {
                Some(o) => o as usize,
                None => 0usize,
            })
            &&& plan.order == (if order matches Some(o) && o@ == "desc"@ {
                Order::Desc
            } else {
                Order::Asc
            })
            &&& (match (plan.request_id, request_id) {
                (Some(a), Some(b)) => a@ == b@,
                (None, None) => true,
                _ => false,
            })
        },
{
    match validate_path_component(session_id, "session_id") {
        Ok(_) => {},
        Err(e) => {
            return Err(e);
        },
    }
    let enc = match encoded_dir {
        Some(e) => e,
        None => encode_path(project_path),
    };
    match validate_path_component(enc.as_str(), "project_path") {
        Ok(_) => {},
        Err(e) => {
            return Err(e);
        },
    }
    let session_path = session_file_path(projects_root, enc.as_str(), session_id);
    let limit_usize: usize = match limit {
        Some(l) => #[verifier::truncate] (l as usize),
        None => 50,
    };
    let offset_usize: usize = match offset {
        Some(o) => #[verifier::truncate] (o as usize),
        None => 0,
    };
    Ok(
        SessionMessagesPlan {
            session_id: String::from_str(session_id),
            project_path: String::from_str(project_path),
            session_path,
            limit: limit_usize,
            offset: offset_usize,
            order: parse_order(order),
            request_id,
        },
    )
}

// ---------------------------------------------------------------------------
// Response frames.
//
// Each request event is answered by exactly one frame — these builders
// each return one — and the frame echoes the request id it answers.

/// Answer `requestProjectData`.
pub fn respond_project_data(projects: Vec<serde_json::Value>, request_id: Option<String>) -> (r:
    DaemonEvent)
    ensures
        r matches DaemonEvent::ProjectData(p) && {
            &&& p.projects@ == projects@
            &&& (match (p.request_id, request_id) {
                (Some(a), Some(b)) => a@ == b@,
                (None, None) => true,
                _ => false,
            })
        },
        request_id matches Some(id) ==> frame_request_id(&r) == Some(id@),
{
    DaemonEvent::ProjectData(ProjectDataPayload { projects, request_id })
}

/// Answer `requestSessionMetadata`.
pub fn respond_session_metadata(
    sessions: Vec<serde_json::Value>,
    project_path: Option<String>,
    request_id: Option<String>,
) -> (r: DaemonEvent)
    ensures
        r matches DaemonEvent::SessionMetadata(p) && {
            &&& p.sessions@ == sessions@
            &&& (match (p.project_path, project_path) {
                (Some(a), Some(b)) => a@ == b@,
                (None, None) => true,
                _ => false,
            })
            &&& (match (p.request_id, request_id) {
                (Some(a), Some(b)) => a@ == b@,
                (None, None) => true,
                _ => false,
            })
        },
        request_id matches Some(id) ==> frame_request_id(&r) == Some(id@),
{
    DaemonEvent::SessionMetadata(SessionMetadataPayload { sessions, project_path, request_id })
}

/// Answer `requestSessionMessages` with the window that was read.
pub fn respond_session_messages(
    session_id: String,
    project_path: String,
    window: RawMessagesResult,
    request_id: Option<String>,
) -> (r: DaemonEvent)
    ensures
        r matches DaemonEvent::SessionMessages(p) && {
            &&& p.session_id@ == session_id@
            &&& p.project_path@ == project_path@
            &&& p.messages@ == window.messages@
            &&& p.total == window.total
            &&& p.has_more == window.has_more
            &&& (match (p.request_id, request_id) {
                (Some(a), Some(b)) => a@ == b@,
                (None, None) => true,
                _ => false,
            })
        },
        request_id matches Some(id) ==> frame_request_id(&r) == Some(id@),
{
    DaemonEvent::SessionMessages(
        SessionMessagesPayload {
            session_id,
            project_path,
            messages: window.messages,
            total: window.total,
            has_more: window.has_more,
            request_id,
        },
    )
}

/// Answer `createSession`: this daemon does not create sessions itself,
/// so the reply is a failure naming the delegate.
pub fn respond_create_session(request_id: String) -> (r: DaemonEvent)
    ensures
        r matches DaemonEvent::SessionCreatedResult(p) && {
            &&& p.request_id@ == request_id@
            &&& !p.success
            &&& p.session_id is None
            &&& p.encoded_dir_name is None
            &&& p.transcript_path is None
            &&& p.error is Some
        },
        frame_request_id(&r) == Some(request_id@),
{
    DaemonEvent::SessionCreatedResult(
        SessionCreatedResultData {
            request_id,
            success: false,
            session_id: None,
            encoded_dir_name: None,
            transcript_path: None,
            error: Some(
                String::from_str("session creation is delegated to the embedding host"),
            ),
        },
    )
}

/// Answer `checkLoading`: the daemon does not track loading state, so the
/// answer is always `false`.
pub fn respond_check_loading(request_id: String) -> (r: DaemonEvent)
    ensures
        r matches DaemonEvent::CheckLoadingResult(p) && p.request_id@ == request_id@
            && !p.loading,
        frame_request_id(&r) == Some(request_id@),
{
    DaemonEvent::CheckLoadingResult(CheckLoadingResultData { request_id, loading: false })
}

/// Answer `sendMessage`: sending is delegated, so the reply is a failure
/// naming the delegate.
pub fn respond_send_message(request_id: String) -> (r: DaemonEvent)
    ensures
        r matches DaemonEvent::SendMessageResult(p) && {
            &&& p.request_id@ == request_id@
            &&& !p.success
            &&& p.message is Some
            &&& p.via is None
        },
        frame_request_id(&r) == Some(request_id@),
{
    DaemonEvent::SendMessageResult(
        SendMessageResultData {
            request_id,
            success: false,
            message: Some(String::from_str("message sending is delegated to the embedding host")),
            via: None,
        },
    )
}

// ---------------------------------------------------------------------------
// Tailer events to frames.

/// What one tailer event asks the daemon to do.
pub enum WatchEventPlan {
    /// Send this frame; when the flag is set, also persist the record to
    /// the shared store.
    Send { frame: DaemonEvent, persist: bool },
    /// Only log it.
    LogOnly,
}

/// Translate one tailer event into the upstream frame it owes: a new
/// record becomes `newMessage` carrying the record itself and the given
/// timestamp (persisted too when this daemon is the writer), a created
/// session refreshes the project's session list, a deleted one announces
/// the deletion, and a read error is only logged.
pub fn plan_watch_event(event: SessionWatchEvent, is_writer: bool, timestamp: String) -> (r:
    WatchEventPlan)
    ensures
        event matches SessionWatchEvent::NewMessage { session_id, message, .. } ==> (r matches
            WatchEventPlan::Send { frame, persist } && persist == is_writer && (frame matches
            DaemonEvent::NewMessage(p) && p.session_id@ == session_id@ && p.message == message
            && p.timestamp@ == timestamp@)),
        event matches SessionWatchEvent::SessionCreated { project_path, .. } ==> (r matches
            WatchEventPlan::Send { frame, persist } && !persist && (frame matches
            DaemonEvent::SessionListUpdate { project_path: pp } && pp@ == project_path@)),
        event matches SessionWatchEvent::SessionDeleted { session_id, project_path } ==> (
        r matches WatchEventPlan::Send { frame, persist } && !persist && (frame matches
            DaemonEvent::SessionDeleted(p) && p.session_id@ == session_id@ && p.project_path@
            == project_path@)),
        event matches SessionWatchEvent::Error { .. } ==> r is LogOnly,
{
    match event {
        SessionWatchEvent::NewMessage { session_id, project_path: _, message } => {
            WatchEventPlan::Send {
                frame: DaemonEvent::NewMessage(
                    NewMessageData { session_id, message, timestamp },
                ),
                persist: is_writer,
            }
        },
        SessionWatchEvent::SessionCreated { session_id: _, project_path } => {
            WatchEventPlan::Send {
                frame: DaemonEvent::SessionListUpdate { project_path },
                persist: false,
            }
        },
        SessionWatchEvent::SessionDeleted { session_id, project_path } => {
            WatchEventPlan::Send {
                frame: DaemonEvent::SessionDeleted(
                    SessionDeletedData { session_id, project_path },
                ),
                persist: false,
            }
        },
        SessionWatchEvent::Error { session_id: _, error: _ } => WatchEventPlan::LogOnly,
    }
}

} // verus!
