use agent_gateway::errors::{classify_store_failure, DomainError, ErrorKind, LlmKind, RedisKind};

#[test]
fn test_error_creation() {
    let error = DomainError::validation("Invalid prompt");
    assert_eq!(error.kind(), ErrorKind::Validation);
    assert_eq!(error.message(), "Invalid prompt");
}

#[test]
fn test_error_with_data() {
    let error = DomainError::validation("Invalid field")
        .with_data(serde_json::Value::String("prompt".to_string()));

    assert!(error.data().is_some());
}

#[test]
fn test_is_retryable() {
    let retryable = DomainError::llm(LlmKind::RateLimit, "Too many requests");
    assert!(retryable.is_retryable());

    let not_retryable = DomainError::validation("Bad input");
    assert!(!not_retryable.is_retryable());
}

#[test]
fn test_status_codes() {
    assert_eq!(ErrorKind::NotFound.status_code(), 404);
    assert_eq!(ErrorKind::Validation.status_code(), 400);
    assert_eq!(ErrorKind::Llm(LlmKind::RateLimit).status_code(), 429);
}

#[test]
fn test_error_codes() {
    assert_eq!(ErrorKind::NotFound.error_code(), "NOT_FOUND");
    assert_eq!(
        ErrorKind::Redis(RedisKind::SessionNotFound).error_code(),
        "SESSION_NOT_FOUND"
    );
}

#[test]
fn test_full_mapping_table() {
    let cases: Vec<(ErrorKind, u16, &str)> = vec![
        (ErrorKind::NotFound, 404, "NOT_FOUND"),
        (ErrorKind::Validation, 400, "VALIDATION_ERROR"),
        (ErrorKind::Unauthorized, 401, "UNAUTHORIZED"),
        (ErrorKind::ServiceUnavailable, 503, "SERVICE_UNAVAILABLE"),
        (ErrorKind::Internal, 500, "INTERNAL_ERROR"),
        (ErrorKind::Redis(RedisKind::Connection), 503, "REDIS_ERROR"),
        (ErrorKind::Redis(RedisKind::Serialization), 503, "REDIS_ERROR"),
        (ErrorKind::Redis(RedisKind::SessionNotFound), 404, "SESSION_NOT_FOUND"),
        (ErrorKind::Redis(RedisKind::Timeout), 503, "REDIS_ERROR"),
        (ErrorKind::Llm(LlmKind::Unavailable), 503, "LLM_ERROR"),
        (ErrorKind::Llm(LlmKind::RateLimit), 429, "RATE_LIMIT_EXCEEDED"),
        (ErrorKind::Llm(LlmKind::ContextTooLong), 503, "CONTEXT_TOO_LONG"),
        (ErrorKind::Llm(LlmKind::InvalidResponse), 503, "LLM_ERROR"),
        (ErrorKind::Llm(LlmKind::Timeout), 503, "LLM_ERROR"),
    ];
    for (kind, status, code) in cases {
        assert_eq!(kind.status_code(), status);
        assert_eq!(kind.error_code(), code);
        // the mapping depends on the kind alone: a second call agrees
        assert_eq!(kind.status_code(), kind.status_code());
        assert_eq!(kind.error_code(), kind.error_code());
    }
}

#[test]
fn test_classification_predicates() {
    assert!(DomainError::not_found("x").is_not_found());
    assert!(DomainError::session_not_found("abc").is_not_found());
    assert!(!DomainError::validation("x").is_not_found());

    assert!(DomainError::not_found("x").is_client_error());
    assert!(DomainError::validation("x").is_client_error());
    assert!(DomainError::unauthorized("x").is_client_error());
    assert!(!DomainError::internal("x").is_client_error());

    assert!(DomainError::new(ErrorKind::ServiceUnavailable, "x").is_retryable());
    assert!(DomainError::redis(RedisKind::Connection, "x").is_retryable());
    assert!(DomainError::redis(RedisKind::Timeout, "x").is_retryable());
    assert!(DomainError::llm(LlmKind::Unavailable, "x").is_retryable());
    assert!(DomainError::llm(LlmKind::Timeout, "x").is_retryable());
    assert!(!DomainError::redis(RedisKind::Serialization, "x").is_retryable());
    assert!(!DomainError::llm(LlmKind::ContextTooLong, "x").is_retryable());
}

#[test]
fn test_with_source_keeps_kind_and_message() {
    let error = DomainError::redis(RedisKind::Connection, "lost").with_source("io: reset by peer");
    assert_eq!(error.kind(), ErrorKind::Redis(RedisKind::Connection));
    assert_eq!(error.message(), "lost");
}

#[test]
fn test_session_not_found_message() {
    let error = DomainError::session_not_found("abc");
    assert_eq!(error.kind(), ErrorKind::Redis(RedisKind::SessionNotFound));
    assert_eq!(error.message(), "Session 'abc' not found");
}

#[test]
fn test_classify_store_failure() {
    assert_eq!(classify_store_failure(true, false, false), RedisKind::Connection);
    assert_eq!(classify_store_failure(false, true, true), RedisKind::Connection);
    assert_eq!(classify_store_failure(false, false, true), RedisKind::Timeout);
    assert_eq!(classify_store_failure(false, false, false), RedisKind::Connection);
}
