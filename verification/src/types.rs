//! Plain domain types: reading order, project summaries, session metrics,
//! raw message windows, and the file-watch modes.

use vstd::prelude::*;

verus! {

/// The order a message window is read in.
#[derive(Debug, Clone, Copy, PartialEq, Eq, Structural)]
pub enum Order {
    Asc,
    Desc,
}

/// A project directory, summarised for listing.
#[derive(Debug, Clone)]
pub struct ProjectInfo {
    /// The on-disk directory name.
    pub encoded_name: String,
    /// The decoded project path.
    pub path: String,
    /// The project's display name, from the path's last segment.
    pub name: String,
    /// How many transcript files the project holds.
    pub session_count: usize,
    /// The newest transcript's modification time, epoch milliseconds.
    pub last_active: Option<u64>,
}

/// A window of raw transcript records.
#[derive(Debug)]
pub struct RawMessagesResult {
    pub messages: Vec<serde_json::Value>,
    pub total: usize,
    pub has_more: bool,
}

/// Counts derived from one parsed session.
#[derive(Debug, Clone, PartialEq, Eq, Structural)]
pub struct SessionMetrics {
    pub message_count: usize,
    pub user_message_count: usize,
    pub assistant_message_count: usize,
    pub estimated_tokens: usize,
    pub duration_seconds: Option<u64>,
}

/// Who wrote a message.
#[derive(Debug, Clone, Copy, PartialEq, Eq, Structural)]
pub enum MessageKind {
    User,
    Assistant,
}

/// What a directory watch listens for.
#[derive(Debug, Clone, Copy, PartialEq, Eq, Structural)]
pub enum WatchMode {
    /// The set of project directories.
    Projects,
    /// The set of sessions under one project.
    Sessions,
    /// The content of one session file.
    SessionContent,
}

/// One filesystem change reported by a watch.
#[derive(Debug, Clone)]
pub enum WatchEvent {
    Created(String),
    Modified(String),
    Removed(String),
    Error(String),
}

/// How long changes are debounced before they are reported, per watch
/// mode: coarser watches settle longer.
pub fn debounce_millis(mode: WatchMode) -> (r: u64)
    ensures
        mode == WatchMode::Projects ==> r == 500,
        mode == WatchMode::Sessions ==> r == 300,
        mode == WatchMode::SessionContent ==> r == 100,
{
    match mode {
        WatchMode::Projects => 500,
        WatchMode::Sessions => 300,
        WatchMode::SessionContent => 100,
    }
}

} // verus!
