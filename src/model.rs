use vstd::prelude::*;

verus! {

/// Body of an error reply: a readable message and a stable error kind.
#[derive(Debug)]
pub struct ErrorResponse {
    pub error: String,
    pub error_type: String,
}

/// Request naming a resource to probe once.
#[derive(Debug)]
pub struct GiftRequest {
    pub gift_name: String,
}

/// Reply to a single probe.
#[derive(Debug)]
pub struct GiftResponse {
    pub gift_name: String,
    pub id: u32,
    pub status: String,
}

impl GiftResponse {
    /// Reply for a probe of `id` that found the page (`"found"`) or not
    /// (`"not_found"`).
    pub fn new(gift_name: String, id: u32, found: bool) -> (r: GiftResponse)
        ensures
            r.gift_name == gift_name,
            r.id == id,
            r.status@ == (if found { "found"@ } else { "not_found"@ }),
    {
        let status = if found { String::from_str("found") } else { String::from_str("not_found") };
        GiftResponse { gift_name, id, status }
    }
}

/// A discovery event: `current_id` exists for the resource `gift_name`.
#[derive(Debug)]
pub struct GiftStatus {
    pub gift_name: String,
    pub current_id: u32,
    pub found: bool,
}

/// Failures that reach a caller.
#[derive(Debug)]
pub enum AppError {
    /// The resource name holds a character outside `[A-Za-z0-9-]`, or is empty.
    InvalidGiftName(String),
    /// Every attempt of a bounded retry failed; carries the attempt count.
    MaxRetriesExceeded(u32),
    /// The remote endpoint answered with a rate-limit status.
    RateLimit,
    /// A transport failure, with its description.
    Network(String),
}

pub const STATUS_BAD_REQUEST: u16 = 400;

pub const STATUS_TOO_MANY_REQUESTS: u16 = 429;

pub const STATUS_INTERNAL_ERROR: u16 = 500;

impl AppError {
    /// HTTP status that the error is reported with.
    pub fn status_code(&self) -> (r: u16)
        ensures
            r == match self {
                AppError::InvalidGiftName(_) => STATUS_BAD_REQUEST,
                AppError::MaxRetriesExceeded(_) => STATUS_BAD_REQUEST,
                AppError::RateLimit => STATUS_TOO_MANY_REQUESTS,
                AppError::Network(_) => STATUS_INTERNAL_ERROR,
            },
    {
        match self {
            AppError::InvalidGiftName(_) => STATUS_BAD_REQUEST,
            AppError::MaxRetriesExceeded(_) => STATUS_BAD_REQUEST,
            AppError::RateLimit => STATUS_TOO_MANY_REQUESTS,
            AppError::Network(_) => STATUS_INTERNAL_ERROR,
        }
    }

    /// Stable name of the error kind, as sent in `ErrorResponse::error_type`.
    pub fn error_type(&self) -> (r: String)
        ensures
            r@ == match self {
                AppError::InvalidGiftName(_) => "InvalidInput"@,
                AppError::MaxRetriesExceeded(_) => "RetriesExhausted"@,
                AppError::RateLimit => "RateLimited"@,
                AppError::Network(_) => "TransportFailure"@,
            },
    {
        match self {
            AppError::InvalidGiftName(_) => String::from_str("InvalidInput"),
            AppError::MaxRetriesExceeded(_) => String::from_str("RetriesExhausted"),
            AppError::RateLimit => String::from_str("RateLimited"),
            AppError::Network(_) => String::from_str("TransportFailure"),
        }
    }
}

} // verus!
