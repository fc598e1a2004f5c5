//! Shared API data models: the error taxonomy of the HTTP surface, job
//! events bridged into the hub, and the request and response records of the
//! administrative endpoints.

use vstd::prelude::*;

use crate::json::{JsonModel, JsonValue};

verus! {

/// Every way an API request can fail, with the offending detail.
pub enum ApiError {
    YamlParseError(String),
    FileNotFound(String),
    NotFound(String),
    BadRequest(String),
    IoError(String),
    SerializationError(String),
    DeserializationError(String),
    WebSocketError(String),
    ValidationError(String),
    InternalError(String),
    ExecutionError(String),
    JobExecutionError(String),
}

/// The HTTP status code each error answers with.
pub open spec fn spec_status_code(e: ApiError) -> u16 {
    match e {
        ApiError::YamlParseError(_) => 400,
        ApiError::FileNotFound(_) => 404,
        ApiError::NotFound(_) => 404,
        ApiError::BadRequest(_) => 400,
        ApiError::IoError(_) => 500,
        ApiError::SerializationError(_) => 500,
        ApiError::DeserializationError(_) => 400,
        ApiError::WebSocketError(_) => 500,
        ApiError::ValidationError(_) => 400,
        ApiError::InternalError(_) => 500,
        ApiError::ExecutionError(_) => 500,
        ApiError::JobExecutionError(_) => 500,
    }
}

impl ApiError {
    /// The status code of the response this error becomes.
    pub fn status_code(&self) -> (r: u16)
        ensures
            r == spec_status_code(*self),
    {
        match self {
            ApiError::YamlParseError(_) => 400,
            ApiError::FileNotFound(_) => 404,
            ApiError::NotFound(_) => 404,
            ApiError::BadRequest(_) => 400,
            ApiError::IoError(_) => 500,
            ApiError::SerializationError(_) => 500,
            ApiError::DeserializationError(_) => 400,
            ApiError::WebSocketError(_) => 500,
            ApiError::ValidationError(_) => 400,
            ApiError::InternalError(_) => 500,
            ApiError::ExecutionError(_) => 500,
            ApiError::JobExecutionError(_) => 500,
        }
    }

    /// The detail carried inside, whatever the variant.
    pub fn detail(&self) -> (r: &String)
        ensures
            match self {
                ApiError::YamlParseError(s) => r@ == s@,
                ApiError::FileNotFound(s) => r@ == s@,
                ApiError::NotFound(s) => r@ == s@,
                ApiError::BadRequest(s) => r@ == s@,
                ApiError::IoError(s) => r@ == s@,
                ApiError::SerializationError(s) => r@ == s@,
                ApiError::DeserializationError(s) => r@ == s@,
                ApiError::WebSocketError(s) => r@ == s@,
                ApiError::ValidationError(s) => r@ == s@,
                ApiError::InternalError(s) => r@ == s@,
                ApiError::ExecutionError(s) => r@ == s@,
                ApiError::JobExecutionError(s) => r@ == s@,
            },
    {
        match self {
            ApiError::YamlParseError(s) => s,
            ApiError::FileNotFound(s) => s,
            ApiError::NotFound(s) => s,
            ApiError::BadRequest(s) => s,
            ApiError::IoError(s) => s,
            ApiError::SerializationError(s) => s,
            ApiError::DeserializationError(s) => s,
            ApiError::WebSocketError(s) => s,
            ApiError::ValidationError(s) => s,
            ApiError::InternalError(s) => s,
            ApiError::ExecutionError(s) => s,
            ApiError::JobExecutionError(s) => s,
        }
    }
}

// ---------------------------------------------------------------------------
// Job events
// ---------------------------------------------------------------------------

/// A progress notification for an externally executed job, bridged into the
/// broadcast system and discarded after delivery.
pub struct JobEvent {
    pub job_id: String,
    pub device: String,
    pub job_type: String,
    pub event_type: String,
    pub status: String,
    pub timestamp: u64,
    pub data: JsonValue,
    pub error: Option<String>,
}

/// The model of a [`JobEvent`].
pub struct JobEventModel {
    pub job_id: Seq<char>,
    pub device: Seq<char>,
    pub job_type: Seq<char>,
    pub event_type: Seq<char>,
    pub status: Seq<char>,
    pub timestamp: u64,
    pub data: JsonModel,
    pub error: Option<Seq<char>>,
}

impl View for JobEvent {
    type V = JobEventModel;

    open spec fn view(&self) -> JobEventModel {
        JobEventModel {
            job_id: self.job_id@,
            device: self.device@,
            job_type: self.job_type@,
            event_type: self.event_type@,
            status: self.status@,
            timestamp: self.timestamp,
            data: self.data@,
            error: self.error.deep_view(),
        }
    }
}

impl JobEvent {
    /// A fresh event stamped with the given moment.
    pub fn new(
        job_id: &str,
        device: &str,
        job_type: &str,
        event_type: &str,
        status: &str,
        data: JsonValue,
        now: u64,
    ) -> (r: JobEvent)
        ensures
            r@ == (JobEventModel {
                job_id: job_id@,
                device: device@,
                job_type: job_type@,
                event_type: event_type@,
                status: status@,
                timestamp: now,
                data: r@.data,
                error: None,
            }),
            r@.data == data@,
    {
        JobEvent {
            job_id: job_id.to_owned(),
            device: device.to_owned(),
            job_type: job_type.to_owned(),
            event_type: event_type.to_owned(),
            status: status.to_owned(),
            timestamp: now,
            data,
            error: None,
        }
    }

    /// A failure event: type and status both read `failed`, with the cause.
    pub fn with_error(job_id: &str, device: &str, job_type: &str, error: &str, data: JsonValue, now: u64) -> (r:
        JobEvent)
        ensures
            r@ == (JobEventModel {
                job_id: job_id@,
                device: device@,
                job_type: job_type@,
                event_type: seq!['f', 'a', 'i', 'l', 'e', 'd'],
                status: seq!['f', 'a', 'i', 'l', 'e', 'd'],
                timestamp: now,
                data: r@.data,
                error: Some(error@),
            }),
            r@.data == data@,
    {
        let event_type = String::from_str("failed");
        let status = String::from_str("failed");
        proof {
            reveal_strlit("failed");
            assert(event_type@ =~= seq!['f', 'a', 'i', 'l', 'e', 'd']);
        }
        JobEvent {
            job_id: job_id.to_owned(),
            device: device.to_owned(),
            job_type: job_type.to_owned(),
            event_type,
            status,
            timestamp: now,
            data,
            error: Some(error.to_owned()),
        }
    }
}

// ---------------------------------------------------------------------------
// Plain request and response records of the administrative surface
// ---------------------------------------------------------------------------

/// Asks to hear job events, optionally narrowed by device or job type.
pub struct JobSubscriptionRequest {
    pub device_filter: Option<String>,
    pub job_type_filter: Option<String>,
}

/// Confirms a job subscription.
pub struct JobSubscriptionResponse {
    pub subscription_id: String,
    pub topics: Vec<String>,
}

/// A whole navigation tree with its display settings.
pub struct NavigationConfig {
    pub items: Vec<NavigationItem>,
    pub settings: Option<NavigationSettings>,
}

/// One navigation node; children nest.
pub struct NavigationItem {
    pub id: String,
    pub label: String,
    pub icon: Option<String>,
    pub path: Option<String>,
    pub children: Option<Vec<NavigationItem>>,
    pub metadata: Option<JsonValue>,
}

/// How the navigation is displayed.
pub struct NavigationSettings {
    pub theme: Option<String>,
    pub layout: Option<String>,
    pub collapsible: Option<bool>,
}

/// Asks an external worker to back a device up.
pub struct BackupRequest {
    pub hostname: String,
    pub username: String,
    pub password: String,
    pub inventory_file: Option<String>,
}

/// What the worker said about a backup.
pub struct BackupResponse {
    pub status: String,
    pub message: String,
    pub logs: Option<String>,
    pub files: Option<JsonValue>,
}

/// Asks an external worker to restore a device from a backup file.
pub struct RestoreRequest {
    pub hostname: String,
    pub username: String,
    pub password: String,
    pub backup_file: String,
}

/// What the worker said about a restore.
pub struct RestoreResponse {
    pub status: String,
    pub message: String,
    pub logs: Option<String>,
}

/// The realtime backup request as the frontend sends it.
pub struct StartBackupPayload {
    pub device_id: String,
    pub hostname: Option<String>,
    pub inventory_file: Option<String>,
    pub username: String,
    pub password: String,
}

/// Asks the runner to execute a script.
pub struct ExecutePythonRequest {
    pub script_path: String,
    pub args: Vec<String>,
    pub env_vars: Vec<(String, String)>,
    pub websocket_client_id: Option<String>,
}

/// Confirms that a script run started.
pub struct ExecutePythonResponse {
    pub execution_id: String,
    pub status: String,
    pub message: String,
}

/// Narrows an execution listing.
pub struct ListExecutionsQuery {
    pub status: Option<String>,
    pub limit: Option<usize>,
}

/// The error body the runner endpoints answer with.
pub struct ErrorResponse {
    pub error: String,
    pub details: Option<String>,
}

} // verus!
