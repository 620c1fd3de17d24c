//! The events the app sends to webhooks.
use vstd::prelude::*;
use vstd::string::*;

verus! {

broadcast use vstd::string::group_string_axioms;

/// Kinds of webhook events.
#[derive(Debug, Clone, Copy, PartialEq, Eq, Structural)]
pub enum WebhookEventType {
    NoteCreated,
    NoteUpdated,
    NoteDeleted,
    RecordingStarted,
    RecordingCompleted,
    TranscriptionReady,
}

/// State of a recording.
#[derive(Debug, Clone, Copy, PartialEq, Eq, Structural)]
pub enum RecordingStatus {
    Started,
    InProgress,
    Completed,
    Failed,
}

/// A note that was created, updated or deleted.
pub struct NoteEventData {
    pub note_id: String,
    pub title: String,
    /// Content of the note (may be truncated for large notes).
    pub content: Option<String>,
    pub tags: Vec<String>,
    /// ISO 8601 timestamp of creation.
    pub created_at: String,
    /// ISO 8601 timestamp of the last update.
    pub updated_at: Option<String>,
}

/// A recording that started or completed.
pub struct RecordingEventData {
    pub recording_id: String,
    pub duration_seconds: Option<u32>,
    pub file_size_bytes: Option<u64>,
    pub status: RecordingStatus,
    /// ISO 8601 timestamp of the start.
    pub started_at: String,
    /// ISO 8601 timestamp of the completion.
    pub completed_at: Option<String>,
}

/// The receiver's answer to a delivery.
pub struct WebhookDeliveryResponse {
    pub success: bool,
    pub message: Option<String>,
}

/// The answer of the plugin's command, which does nothing yet.
pub fn webhook_todo() -> (r: Result<String, String>)
    ensures
        r matches Ok(s) && s@ == "Webhook todo functionality not yet implemented"@,
{
    Ok(String::from_str("Webhook todo functionality not yet implemented"))
}

} // verus!
