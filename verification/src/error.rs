//! Error taxonomy for the query engine.
//!
//! Each variant carries a stable machine-readable code, a human-readable
//! message, a remediation hint, and a retryability flag. Only connectivity
//! failures are retryable; every other condition is terminal for the call.

use vstd::prelude::*;
use vstd::string::StringExecFns;

verus! {

/// Every failure the engine can report.
#[derive(Debug)]
pub enum AppError {
    KeysNotFound { path: String },
    RelayUnreachable { url: String },
    RelayRejected { reason: String },
    HeaderNotFound { event_id: String },
    HeaderMissingDTag,
    InvalidEventId { id: String },
    NoResults,
    InvalidNsec,
    KeysSaveFailed { reason: String },
    KeysAlreadyExist { path: String },
    InvalidCoordinate { input: String },
    Io { reason: String },
    InvalidJson { reason: String },
}

/// The machine-readable code of each error variant.
pub open spec fn spec_code(e: AppError) -> Seq<char> {
    match e {
        AppError::KeysNotFound { .. } => "KEYS_NOT_FOUND"@,
        AppError::RelayUnreachable { .. } => "RELAY_UNREACHABLE"@,
        AppError::RelayRejected { .. } => "RELAY_REJECTED"@,
        AppError::HeaderNotFound { .. } => "HEADER_NOT_FOUND"@,
        AppError::HeaderMissingDTag => "HEADER_MISSING_D_TAG"@,
        AppError::InvalidEventId { .. } => "INVALID_EVENT_ID"@,
        AppError::NoResults => "NO_RESULTS"@,
        AppError::InvalidNsec => "INVALID_NSEC"@,
        AppError::KeysSaveFailed { .. } => "KEYS_SAVE_FAILED"@,
        AppError::KeysAlreadyExist { .. } => "KEYS_ALREADY_EXIST"@,
        AppError::InvalidCoordinate { .. } => "INVALID_COORDINATE"@,
        AppError::Io { .. } => "IO_ERROR"@,
        AppError::InvalidJson { .. } => "INVALID_JSON"@,
    }
}

/// The human-readable message of each error variant.
pub open spec fn spec_message(e: AppError) -> Seq<char> {
    match e {
        AppError::KeysNotFound { path } => "Keys not found at "@ + path@,
        AppError::RelayUnreachable { url } => "Relay unreachable: "@ + url@,
        AppError::RelayRejected { reason } => "Relay rejected event: "@ + reason@,
        AppError::HeaderNotFound { event_id } => "Header not found: "@ + event_id@,
        AppError::HeaderMissingDTag => "Header missing d-tag (required for addressable events)"@,
        AppError::InvalidEventId { id } => "Invalid event ID: "@ + id@,
        AppError::NoResults => "No results for query"@,
        AppError::InvalidNsec => "Invalid nsec format"@,
        AppError::KeysSaveFailed { reason } => "Failed to save keys: "@ + reason@,
        AppError::KeysAlreadyExist { path } => "Keys already exist at "@ + path@
            + " — use --force to overwrite"@,
        AppError::InvalidCoordinate { input } => "Invalid coordinate format: "@ + input@
            + " — expected kind:pubkey:d-tag"@,
        AppError::Io { reason } => "IO error: "@ + reason@,
        AppError::InvalidJson { reason } => "Invalid JSON: "@ + reason@,
    }
}

/// The remediation hint of each error variant.
pub open spec fn spec_fix(e: AppError) -> Seq<char> {
    match e {
        AppError::KeysNotFound { .. } => "Run `wokhei init --generate` to create a new keypair"@,
        AppError::RelayUnreachable { url } => "Check that the relay at "@ + url@
            + " is running. For local dev: `cd strfry && docker compose up -d`"@,
        AppError::RelayRejected { .. } => "Check event format and relay write policy"@,
        AppError::HeaderNotFound { .. } =>
            "Verify the event ID, or use `--header-coordinate` for cross-relay references"@,
        AppError::HeaderMissingDTag =>
            "The header event is malformed (no d-tag). Create a new addressable header with `--d-tag`"@,
        AppError::InvalidEventId { .. } => "Use a hex event ID from a previous command's result"@,
        AppError::NoResults => "Try different filters, or check that the relay has data"@,
        AppError::InvalidNsec => "Use bech32 nsec1... format"@,
        AppError::KeysSaveFailed { .. } => "Check file permissions on ~/.wokhei/"@,
        AppError::KeysAlreadyExist { path } => "Keys already exist at "@ + path@
            + ". Back up and remove to regenerate."@,
        AppError::InvalidCoordinate { .. } => "Format: kind:pubkey:d-tag (e.g., 39998:abc123:my-list)"@,
        AppError::Io { .. } => "Check file permissions and disk space"@,
        AppError::InvalidJson { .. } => "Provide valid JSON input"@,
    }
}

impl AppError {
    /// Stable machine-readable code, unique per variant.
    pub fn code(&self) -> (r: &'static str)
        ensures
            r@ == spec_code(*self),
    {
        match self {
            AppError::KeysNotFound { .. } => "KEYS_NOT_FOUND",
            AppError::RelayUnreachable { .. } => "RELAY_UNREACHABLE",
            AppError::RelayRejected { .. } => "RELAY_REJECTED",
            AppError::HeaderNotFound { .. } => "HEADER_NOT_FOUND",
            AppError::HeaderMissingDTag => "HEADER_MISSING_D_TAG",
            AppError::InvalidEventId { .. } => "INVALID_EVENT_ID",
            AppError::NoResults => "NO_RESULTS",
            AppError::InvalidNsec => "INVALID_NSEC",
            AppError::KeysSaveFailed { .. } => "KEYS_SAVE_FAILED",
            AppError::KeysAlreadyExist { .. } => "KEYS_ALREADY_EXIST",
            AppError::InvalidCoordinate { .. } => "INVALID_COORDINATE",
            AppError::Io { .. } => "IO_ERROR",
            AppError::InvalidJson { .. } => "INVALID_JSON",
        }
    }

    /// Whether the caller may usefully retry: only connectivity failures.
    pub fn retryable(&self) -> (r: bool)
        ensures
            r == (self is RelayUnreachable),
    {
        match self {
            AppError::RelayUnreachable { .. } => true,
            _ => false,
        }
    }

    /// Human-readable message describing the failure.
    pub fn message(&self) -> (r: String)
        ensures
            r@ == spec_message(*self),
    {
        match self {
            AppError::KeysNotFound { path } => String::from_str("Keys not found at ").concat(
                path.as_str(),
            ),
            AppError::RelayUnreachable { url } => String::from_str("Relay unreachable: ").concat(
                url.as_str(),
            ),
            AppError::RelayRejected { reason } => String::from_str("Relay rejected event: ")
                .concat(reason.as_str()),
            AppError::HeaderNotFound { event_id } => String::from_str("Header not found: ").concat(
                event_id.as_str(),
            ),
            AppError::HeaderMissingDTag => String::from_str(
                "Header missing d-tag (required for addressable events)",
            ),
            AppError::InvalidEventId { id } => String::from_str("Invalid event ID: ").concat(
                id.as_str(),
            ),
            AppError::NoResults => String::from_str("No results for query"),
            AppError::InvalidNsec => String::from_str("Invalid nsec format"),
            AppError::KeysSaveFailed { reason } => String::from_str("Failed to save keys: ")
                .concat(reason.as_str()),
            AppError::KeysAlreadyExist { path } => String::from_str("Keys already exist at ")
                .concat(path.as_str()).concat(" — use --force to overwrite"),
            AppError::InvalidCoordinate { input } => String::from_str(
                "Invalid coordinate format: ",
            ).concat(input.as_str()).concat(" — expected kind:pubkey:d-tag"),
            AppError::Io { reason } => String::from_str("IO error: ").concat(reason.as_str()),
            AppError::InvalidJson { reason } => String::from_str("Invalid JSON: ").concat(
                reason.as_str(),
            ),
        }
    }

    /// Remediation hint for the failure.
    pub fn fix(&self) -> (r: String)
        ensures
            r@ == spec_fix(*self),
    {
        match self {
            AppError::KeysNotFound { .. } => String::from_str(
                "Run `wokhei init --generate` to create a new keypair",
            ),
            AppError::RelayUnreachable { url } => String::from_str("Check that the relay at ")
                .concat(url.as_str()).concat(
                " is running. For local dev: `cd strfry && docker compose up -d`",
            ),
            AppError::RelayRejected { .. } => String::from_str(
                "Check event format and relay write policy",
            ),
            AppError::HeaderNotFound { .. } => String::from_str(
                "Verify the event ID, or use `--header-coordinate` for cross-relay references",
            ),
            AppError::HeaderMissingDTag => String::from_str(
                "The header event is malformed (no d-tag). Create a new addressable header with `--d-tag`",
            ),
            AppError::InvalidEventId { .. } => String::from_str(
                "Use a hex event ID from a previous command's result",
            ),
            AppError::NoResults => String::from_str(
                "Try different filters, or check that the relay has data",
            ),
            AppError::InvalidNsec => String::from_str("Use bech32 nsec1... format"),
            AppError::KeysSaveFailed { .. } => String::from_str(
                "Check file permissions on ~/.wokhei/",
            ),
            AppError::KeysAlreadyExist { path } => String::from_str("Keys already exist at ")
                .concat(path.as_str()).concat(". Back up and remove to regenerate."),
            AppError::InvalidCoordinate { .. } => String::from_str(
                "Format: kind:pubkey:d-tag (e.g., 39998:abc123:my-list)",
            ),
            AppError::Io { .. } => String::from_str("Check file permissions and disk space"),
            AppError::InvalidJson { .. } => String::from_str("Provide valid JSON input"),
        }
    }
}

/// An argument-level error: a malformed or missing command argument,
/// reported with a stable code and a remediation hint before any work is
/// attempted.
#[derive(Debug)]
pub struct ArgError {
    pub message: String,
    pub code: String,
    pub fix: String,
}

} // verus!
