//! Error taxonomy of the gateway.
//!
//! Every failure that leaves the core is classified into a closed set of
//! kinds, and each kind maps to exactly one transport status and one stable
//! string code. The mapping is total: no kind falls through to a default
//! bucket, and adding a kind forces the match arms here to be extended.

use vstd::prelude::*;

verus! {

/// Failure kinds of the session store layer.
#[derive(Debug, Clone, Copy, PartialEq, Eq, Structural)]
pub enum RedisKind {
    Connection,
    Serialization,
    SessionNotFound,
    Timeout,
}

/// Failure kinds of the model backend layer.
#[derive(Debug, Clone, Copy, PartialEq, Eq, Structural)]
pub enum LlmKind {
    Unavailable,
    RateLimit,
    ContextTooLong,
    InvalidResponse,
    Timeout,
}

/// Top level of the taxonomy. `Redis` and `Llm` nest the layer kinds.
#[derive(Debug, Clone, Copy, PartialEq, Eq, Structural)]
pub enum ErrorKind {
    NotFound,
    Validation,
    Redis(RedisKind),
    Llm(LlmKind),
    Unauthorized,
    ServiceUnavailable,
    Internal,
}

/// The transport status that a kind maps to.
pub open spec fn status_of(kind: ErrorKind) -> u16 {
    match kind {
        ErrorKind::NotFound => 404,
        ErrorKind::Validation => 400,
        ErrorKind::Unauthorized => 401,
        ErrorKind::ServiceUnavailable => 503,
        ErrorKind::Redis(RedisKind::SessionNotFound) => 404,
        ErrorKind::Redis(_) => 503,
        ErrorKind::Llm(LlmKind::RateLimit) => 429,
        ErrorKind::Llm(_) => 503,
        ErrorKind::Internal => 500,
    }
}

/// The stable string code that a kind maps to.
pub open spec fn code_of(kind: ErrorKind) -> Seq<char> {
    match kind {
        ErrorKind::NotFound => "NOT_FOUND"@,
        ErrorKind::Validation => "VALIDATION_ERROR"@,
        ErrorKind::Unauthorized => "UNAUTHORIZED"@,
        ErrorKind::ServiceUnavailable => "SERVICE_UNAVAILABLE"@,
        ErrorKind::Redis(RedisKind::SessionNotFound) => "SESSION_NOT_FOUND"@,
        ErrorKind::Redis(_) => "REDIS_ERROR"@,
        ErrorKind::Llm(LlmKind::RateLimit) => "RATE_LIMIT_EXCEEDED"@,
        ErrorKind::Llm(LlmKind::ContextTooLong) => "CONTEXT_TOO_LONG"@,
        ErrorKind::Llm(_) => "LLM_ERROR"@,
        ErrorKind::Internal => "INTERNAL_ERROR"@,
    }
}

/// Kinds that a caller may retry: transient store and model conditions.
pub open spec fn retryable(kind: ErrorKind) -> bool {
    match kind {
        ErrorKind::ServiceUnavailable => true,
        ErrorKind::Redis(RedisKind::Connection) => true,
        ErrorKind::Redis(RedisKind::Timeout) => true,
        ErrorKind::Llm(LlmKind::Unavailable) => true,
        ErrorKind::Llm(LlmKind::Timeout) => true,
        ErrorKind::Llm(LlmKind::RateLimit) => true,
        _ => false,
    }
}

/// Kinds caused by the caller rather than by the service.
pub open spec fn client_error(kind: ErrorKind) -> bool {
    kind == ErrorKind::NotFound || kind == ErrorKind::Validation || kind
        == ErrorKind::Unauthorized
}

/// Kinds that report a missing resource, at either level of the taxonomy.
pub open spec fn not_found_kind(kind: ErrorKind) -> bool {
    kind == ErrorKind::NotFound || kind == ErrorKind::Redis(RedisKind::SessionNotFound)
}

impl ErrorKind {
    /// Transport status of this kind, per the mapping table.
    pub fn status_code(&self) -> (r: u16)
        ensures
            r == status_of(*self),
    {
        match self {
            ErrorKind::NotFound => 404,
            ErrorKind::Validation => 400,
            ErrorKind::Unauthorized => 401,
            ErrorKind::ServiceUnavailable => 503,
            ErrorKind::Redis(RedisKind::SessionNotFound) => 404,
            ErrorKind::Redis(_) => 503,
            ErrorKind::Llm(LlmKind::RateLimit) => 429,
            ErrorKind::Llm(_) => 503,
            ErrorKind::Internal => 500,
        }
    }

    /// Stable string code of this kind, per the mapping table.
    pub fn error_code(&self) -> (r: &'static str)
        ensures
            r@ == code_of(*self),
    {
        match self {
            ErrorKind::NotFound => "NOT_FOUND",
            ErrorKind::Validation => "VALIDATION_ERROR",
            ErrorKind::Unauthorized => "UNAUTHORIZED",
            ErrorKind::ServiceUnavailable => "SERVICE_UNAVAILABLE",
            ErrorKind::Redis(RedisKind::SessionNotFound) => "SESSION_NOT_FOUND",
            ErrorKind::Redis(_) => "REDIS_ERROR",
            ErrorKind::Llm(LlmKind::RateLimit) => "RATE_LIMIT_EXCEEDED",
            ErrorKind::Llm(LlmKind::ContextTooLong) => "CONTEXT_TOO_LONG",
            ErrorKind::Llm(_) => "LLM_ERROR",
            ErrorKind::Internal => "INTERNAL_ERROR",
        }
    }
}

/// The status/code mapping is a function of the kind alone: equal kinds
/// always yield the same pair, and both components are defined for every
/// kind of the taxonomy, with no fallback bucket.
pub proof fn lemma_mapping_deterministic(k1: ErrorKind, k2: ErrorKind)
    ensures
        k1 == k2 ==> status_of(k1) == status_of(k2) && code_of(k1) == code_of(k2),
{
}

/// Caller-caused kinds always map to a client status (4xx).
pub proof fn lemma_client_error_status(kind: ErrorKind)
    ensures
        client_error(kind) ==> 400 <= status_of(kind) < 500,
{
}

/// Retryable kinds map only to the transient statuses: service
/// unavailable or rate limited.
pub proof fn lemma_retryable_status(kind: ErrorKind)
    ensures
        retryable(kind) ==> status_of(kind) == 503 || status_of(kind) == 429,
{
}

/// Relies on serde_json::Value as an opaque carrier: the library holds
/// and hands back such payloads without reading into them.
#[verifier::external_type_specification]
#[verifier::external_body]
pub struct ExValue(serde_json::Value);

/// The error value that crosses component boundaries: a kind, a message
/// for humans, an optional structured payload for the client, and an
/// optional diagnostic text that is never serialized outward.
#[derive(Debug)]
pub struct DomainError {
    kind: ErrorKind,
    message: String,
    data: Option<serde_json::Value>,
    source: Option<String>,
}

impl DomainError {
    /// The kind this error was classified as.
    pub closed spec fn spec_kind(&self) -> ErrorKind {
        self.kind
    }

    /// The human-readable message.
    pub closed spec fn spec_message(&self) -> Seq<char> {
        self.message@
    }

    /// Whether a structured payload is attached.
    pub closed spec fn spec_has_data(&self) -> bool {
        self.data is Some
    }

    /// Whether a diagnostic source text is attached.
    pub closed spec fn spec_has_source(&self) -> bool {
        self.source is Some
    }

    pub fn new(kind: ErrorKind, message: &str) -> (r: Self)
        ensures
            r.spec_kind() == kind,
            r.spec_message() == message@,
            !r.spec_has_data(),
            !r.spec_has_source(),
    {
        DomainError { kind, message: message.to_owned(), data: None, source: None }
    }

    /// Attach a structured payload for the client.
    pub fn with_data(self, data: serde_json::Value) -> (r: Self)
        ensures
            r.spec_kind() == self.spec_kind(),
            r.spec_message() == self.spec_message(),
            r.spec_has_data(),
            r.spec_has_source() == self.spec_has_source(),
    {
        DomainError { data: Some(data), ..self }
    }

    /// Attach the rendered text of an underlying failure, kept for
    /// diagnostics only.
    pub fn with_source(self, source: &str) -> (r: Self)
        ensures
            r.spec_kind() == self.spec_kind(),
            r.spec_message() == self.spec_message(),
            r.spec_has_data() == self.spec_has_data(),
            r.spec_has_source(),
    {
        DomainError { source: Some(source.to_owned()), ..self }
    }

    pub fn kind(&self) -> (r: ErrorKind)
        ensures
            r == self.spec_kind(),
    {
        self.kind
    }

    pub fn message(&self) -> (r: &str)
        ensures
            r@ == self.spec_message(),
    {
        self.message.as_str()
    }

    pub fn data(&self) -> (r: Option<&serde_json::Value>)
        ensures
            r is Some <==> self.spec_has_data(),
    {
        self.data.as_ref()
    }

    pub fn is_not_found(&self) -> (r: bool)
        ensures
            r == not_found_kind(self.spec_kind()),
    {
        match self.kind {
            ErrorKind::NotFound => true,
            ErrorKind::Redis(RedisKind::SessionNotFound) => true,
            _ => false,
        }
    }

    pub fn is_retryable(&self) -> (r: bool)
        ensures
            r == retryable(self.spec_kind()),
    {
        match self.kind {
            ErrorKind::ServiceUnavailable => true,
            ErrorKind::Redis(RedisKind::Connection) => true,
            ErrorKind::Redis(RedisKind::Timeout) => true,
            ErrorKind::Llm(LlmKind::Unavailable) => true,
            ErrorKind::Llm(LlmKind::Timeout) => true,
            ErrorKind::Llm(LlmKind::RateLimit) => true,
            _ => false,
        }
    }

    pub fn is_client_error(&self) -> (r: bool)
        ensures
            r == client_error(self.spec_kind()),
    {
        match self.kind {
            ErrorKind::NotFound => true,
            ErrorKind::Validation => true,
            ErrorKind::Unauthorized => true,
            _ => false,
        }
    }

    pub fn not_found(message: &str) -> (r: Self)
        ensures
            r.spec_kind() == ErrorKind::NotFound,
            r.spec_message() == message@,
    {
        Self::new(ErrorKind::NotFound, message)
    }

    pub fn validation(message: &str) -> (r: Self)
        ensures
            r.spec_kind() == ErrorKind::Validation,
            r.spec_message() == message@,
    {
        Self::new(ErrorKind::Validation, message)
    }

    pub fn unauthorized(message: &str) -> (r: Self)
        ensures
            r.spec_kind() == ErrorKind::Unauthorized,
            r.spec_message() == message@,
    {
        Self::new(ErrorKind::Unauthorized, message)
    }

    pub fn internal(message: &str) -> (r: Self)
        ensures
            r.spec_kind() == ErrorKind::Internal,
            r.spec_message() == message@,
    {
        Self::new(ErrorKind::Internal, message)
    }

    pub fn redis(kind: RedisKind, message: &str) -> (r: Self)
        ensures
            r.spec_kind() == ErrorKind::Redis(kind),
            r.spec_message() == message@,
    {
        Self::new(ErrorKind::Redis(kind), message)
    }

    pub fn llm(kind: LlmKind, message: &str) -> (r: Self)
        ensures
            r.spec_kind() == ErrorKind::Llm(kind),
            r.spec_message() == message@,
    {
        Self::new(ErrorKind::Llm(kind), message)
    }

    pub fn session_not_found(session_id: &str) -> (r: Self)
        ensures
            r.spec_kind() == ErrorKind::Redis(RedisKind::SessionNotFound),
    {
        let mut message = String::from_str("Session '");
        message.append(session_id);
        message.append("' not found");
        Self::new(ErrorKind::Redis(RedisKind::SessionNotFound), message.as_str())
    }
}

/// Classify a failure reported by the session store transport, from the
/// traits the transport exposes of it: connectivity and IO failures and
/// anything unrecognized are connection kinds; a timeout is a timeout.
pub fn classify_store_failure(connection_dropped: bool, io_error: bool, timeout: bool) -> (r:
    RedisKind)
    ensures
        (connection_dropped || io_error) ==> r == RedisKind::Connection,
        (!connection_dropped && !io_error && timeout) ==> r == RedisKind::Timeout,
        (!connection_dropped && !io_error && !timeout) ==> r == RedisKind::Connection,
{
    if connection_dropped || io_error {
        RedisKind::Connection
    } else if timeout {
        RedisKind::Timeout
    } else {
        RedisKind::Connection
    }
}

/// Result alias used by every fallible operation of the core.
pub type DomainResult<T> = Result<T, DomainError>;

} // verus!
