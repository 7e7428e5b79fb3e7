use server::server_error::{ServerError, ServerErrorKind};

#[test]
fn test_error_creation() {
    let error = ServerError::new(
        ServerErrorKind::MaxConnectionsReached,
        "Test message".to_string(),
        123,
    );

    assert_eq!(error.code(), 123);
    assert_eq!(error.message(), "Test message");
    matches!(error.kind(), ServerErrorKind::MaxConnectionsReached);
}

#[test]
fn test_max_connections_reached_factory() {
    let error = ServerError::max_connections_reached();

    assert_eq!(error.code(), 100);
    assert_eq!(error.message(), "Max connections reached");
    matches!(error.kind(), ServerErrorKind::MaxConnectionsReached);
}

#[test]
fn test_display_formatting() {
    let error = ServerError::new(
        ServerErrorKind::MaxConnectionsReached,
        "Test error".to_string(),
        500,
    );

    assert_eq!(error.to_string(), "[500] Test error");
}

#[test]
fn test_error_getters() {
    let error = ServerError::new(
        ServerErrorKind::MaxConnectionsReached,
        "Test message".to_string(),
        404,
    );

    assert_eq!(error.code(), 404);
    assert_eq!(error.message(), "Test message");
    assert!(matches!(error.kind(), &ServerErrorKind::MaxConnectionsReached));
}

#[test]
fn display_of_max_connections_error() {
    assert_eq!(
        ServerError::max_connections_reached().to_string(),
        "[100] Max connections reached"
    );
}

#[test]
fn display_of_small_and_large_codes() {
    let zero = ServerError::new(ServerErrorKind::MaxConnectionsReached, String::new(), 0);
    assert_eq!(zero.to_string(), "[0] ");
    let max = ServerError::new(ServerErrorKind::MaxConnectionsReached, "x".to_string(), 65535);
    assert_eq!(max.to_string(), "[65535] x");
}
