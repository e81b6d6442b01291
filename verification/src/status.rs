//! Classification of response statuses.

use vstd::prelude::*;
use vstd::string::StringExecFns;

verus! {

/// The ways in which a call to the service can fail.
#[derive(Debug, Clone, Copy, PartialEq, Eq, Structural)]
pub enum ApiError {
    /// The connection was refused or reset.
    APIConnectionError,
    /// The deadline passed before the call was complete.
    APITimeoutError,
    /// A failure status without a kind of its own.
    InternalServerError,
    /// Status 401.
    AuthenticationError,
    /// Status 400.
    BadRequestError,
    /// Status 409.
    ConflictError,
    /// Status 404.
    NotFoundError,
    /// Status 403.
    PermissionDeniedError,
    /// Status 429.
    RateLimitError,
    /// Status 422.
    UnprocessableEntityError,
}

/// The kind of error that has a status of its own, for each such status.
pub open spec fn listed_kind(status: u16) -> Option<ApiError> {
    if status == 400 {
        Some(ApiError::BadRequestError)
    } else if status == 401 {
        Some(ApiError::AuthenticationError)
    } else if status == 403 {
        Some(ApiError::PermissionDeniedError)
    } else if status == 404 {
        Some(ApiError::NotFoundError)
    } else if status == 409 {
        Some(ApiError::ConflictError)
    } else if status == 422 {
        Some(ApiError::UnprocessableEntityError)
    } else if status == 429 {
        Some(ApiError::RateLimitError)
    } else {
        None
    }
}

/// Whether a status reports success.
pub open spec fn is_success(status: u16) -> bool {
    200 <= status <= 299
}

/// What a status means for the call: nothing on success, the listed kind
/// where the status has one, and the unclassified kind otherwise.
pub open spec fn status_error(status: u16) -> Option<ApiError> {
    if is_success(status) {
        None
    } else if listed_kind(status) is Some {
        listed_kind(status)
    } else {
        Some(ApiError::InternalServerError)
    }
}

/// Every status is classified, and in one way only. A status that reports
/// success is no error. One of the seven listed statuses is the error of its
/// own kind, which is never the unclassified one. Any other status is the
/// unclassified error, and never one of a listed kind. No status is a fault
/// of the transport.
pub proof fn lemma_status_classification(status: u16)
    ensures
        status_error(status) is None <==> is_success(status),
        listed_kind(status) is Some <==> status == 400 || status == 401 || status == 403 || status
            == 404 || status == 409 || status == 422 || status == 429,
        listed_kind(status) is Some ==> status_error(status) == listed_kind(status)
            && status_error(status) != Some(ApiError::InternalServerError),
        listed_kind(status) is None && !is_success(status) ==> status_error(status) == Some(
            ApiError::InternalServerError,
        ),
        status_error(status) != Some(ApiError::APIConnectionError),
        status_error(status) != Some(ApiError::APITimeoutError),
{
}

impl ApiError {
    /// Classifies the status of a response: `None` where it reports success,
    /// and otherwise the error that the call ends with. That is the error of
    /// its own kind for each of the seven listed statuses, and the
    /// unclassified error for any other.
    pub fn from_code(status: u16) -> (kind: Option<ApiError>)
        ensures
            kind == status_error(status),
            kind is None <==> is_success(status),
            kind == Some(ApiError::InternalServerError) <==> !is_success(status) && listed_kind(
                status,
            ) is None,
            kind != Some(ApiError::APIConnectionError),
            kind != Some(ApiError::APITimeoutError),
    {
        if 200 <= status && status <= 299 {
            None
        } else {
            match status {
                400 => Some(ApiError::BadRequestError),
                401 => Some(ApiError::AuthenticationError),
                403 => Some(ApiError::PermissionDeniedError),
                404 => Some(ApiError::NotFoundError),
                409 => Some(ApiError::ConflictError),
                422 => Some(ApiError::UnprocessableEntityError),
                429 => Some(ApiError::RateLimitError),
                _ => Some(ApiError::InternalServerError),
            }
        }
    }
}

/// The kind of error that a fault of the transport ends the call with: a
/// passed deadline is a timeout, anything else a failed connection.
pub open spec fn transport_error(timed_out: bool) -> ApiError {
    if timed_out {
        ApiError::APITimeoutError
    } else {
        ApiError::APIConnectionError
    }
}

/// The words that describe a kind of error.
pub open spec fn label_of(error: ApiError) -> Seq<char> {
    match error {
        ApiError::APIConnectionError => "api connection error"@,
        ApiError::APITimeoutError => "api timeout error"@,
        ApiError::InternalServerError => "internal server error"@,
        ApiError::AuthenticationError => "authentication error"@,
        ApiError::BadRequestError => "bad request error"@,
        ApiError::ConflictError => "conflict error"@,
        ApiError::NotFoundError => "not found error"@,
        ApiError::PermissionDeniedError => "permission denied error"@,
        ApiError::RateLimitError => "rate limit error"@,
        ApiError::UnprocessableEntityError => "unprocessable entity error"@,
    }
}

impl ApiError {
    /// The error of a call that the transport gave up: `timed_out` says
    /// whether the deadline had passed.
    pub fn from_transport(timed_out: bool) -> (error: ApiError)
        ensures
            error == transport_error(timed_out),
    {
        if timed_out {
            ApiError::APITimeoutError
        } else {
            ApiError::APIConnectionError
        }
    }

    /// The words that describe the error.
    pub fn label(&self) -> (words: String)
        ensures
            words@ == label_of(*self),
    {
        match self {
            ApiError::APIConnectionError => String::from_str("api connection error"),
            ApiError::APITimeoutError => String::from_str("api timeout error"),
            ApiError::InternalServerError => String::from_str("internal server error"),
            ApiError::AuthenticationError => String::from_str("authentication error"),
            ApiError::BadRequestError => String::from_str("bad request error"),
            ApiError::ConflictError => String::from_str("conflict error"),
            ApiError::NotFoundError => String::from_str("not found error"),
            ApiError::PermissionDeniedError => String::from_str("permission denied error"),
            ApiError::RateLimitError => String::from_str("rate limit error"),
            ApiError::UnprocessableEntityError => String::from_str("unprocessable entity error"),
        }
    }
}

} // verus!
