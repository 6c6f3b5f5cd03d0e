use vstd::prelude::*;

verus! {

/// Errors of the REST API; each carries the HTTP status and the machine code
/// of the JSON error body.
#[derive(Debug)]
pub enum ApiError {
    BadRequest(String),
    NotFound(String),
    Unauthorized,
    ServiceUnavailable(String),
}

impl ApiError {
    /// A bad request carrying the message `m`.
    pub open spec fn is_bad_request(self, m: Seq<char>) -> bool {
        self matches ApiError::BadRequest(s) && s@ == m
    }

    /// A not-found error carrying the message `m`.
    pub open spec fn is_not_found(self, m: Seq<char>) -> bool {
        self matches ApiError::NotFound(s) && s@ == m
    }

    /// A service-unavailable error carrying the message `m`.
    pub open spec fn is_unavailable(self, m: Seq<char>) -> bool {
        self matches ApiError::ServiceUnavailable(s) && s@ == m
    }

    /// The HTTP status code.
    pub fn status_code(&self) -> (c: u16)
        ensures
            c == (match self {
                ApiError::BadRequest(_) => 400u16,
                ApiError::NotFound(_) => 404u16,
                ApiError::Unauthorized => 401u16,
                ApiError::ServiceUnavailable(_) => 503u16,
            }),
    {
        match self {
            ApiError::BadRequest(_) => 400,
            ApiError::NotFound(_) => 404,
            ApiError::Unauthorized => 401,
            ApiError::ServiceUnavailable(_) => 503,
        }
    }

    /// The `error` field of the JSON error body.
    pub fn code(&self) -> (c: &'static str)
        ensures
            c@ == (match self {
                ApiError::BadRequest(_) => "bad_request"@,
                ApiError::NotFound(_) => "not_found"@,
                ApiError::Unauthorized => "unauthorized"@,
                ApiError::ServiceUnavailable(_) => "service_unavailable"@,
            }),
    {
        match self {
            ApiError::BadRequest(_) => "bad_request",
            ApiError::NotFound(_) => "not_found",
            ApiError::Unauthorized => "unauthorized",
            ApiError::ServiceUnavailable(_) => "service_unavailable",
        }
    }

    /// The `message` field of the JSON error body.
    pub fn message(&self) -> (m: String)
        ensures
            m@ == (match self {
                ApiError::BadRequest(s) => s@,
                ApiError::NotFound(s) => s@,
                ApiError::Unauthorized => "Invalid or missing API key"@,
                ApiError::ServiceUnavailable(s) => s@,
            }),
    {
        match self {
            ApiError::BadRequest(s) => s.clone(),
            ApiError::NotFound(s) => s.clone(),
            ApiError::Unauthorized => String::from_str("Invalid or missing API key"),
            ApiError::ServiceUnavailable(s) => s.clone(),
        }
    }
}

/// Errors of the application as a whole.
#[derive(Debug)]
pub enum AppError {
    World(String),
    AgentNotFound(String),
    AgentAlreadyExists(String),
    A2a(String),
    Api(String),
    Config(String),
    Tui(String),
}

} // verus!
