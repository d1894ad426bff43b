use plnk::error::PlankaError;

#[test]
fn exit_code_validation_errors() {
    let err = PlankaError::MissingRequiredOption { field: "--list".to_string() };
    assert_eq!(err.exit_code(), 2);
    assert_eq!(err.error_type(), "MissingRequiredOption");

    let err = PlankaError::InvalidOptionValue {
        field: "--position".to_string(),
        message: "must be a number".to_string(),
    };
    assert_eq!(err.exit_code(), 2);
    assert_eq!(err.error_type(), "InvalidOptionValue");

    let err = PlankaError::MutuallyExclusiveOptions {
        fields: vec!["--description".to_string(), "--description-file".to_string()],
    };
    assert_eq!(err.exit_code(), 2);
    assert_eq!(err.error_type(), "MutuallyExclusiveOptions");
}

#[test]
fn exit_code_auth_failure() {
    let err = PlankaError::AuthenticationFailed { message: "No credentials found".to_string() };
    assert_eq!(err.exit_code(), 3);
    assert_eq!(err.error_type(), "AuthenticationFailed");
}

#[test]
fn exit_code_not_found() {
    let err = PlankaError::NotFound { resource_type: "card".to_string(), id: "1234".to_string() };
    assert_eq!(err.exit_code(), 4);
    assert_eq!(err.error_type(), "ResourceNotFound");

    let err = PlankaError::Remote404 {
        method: "GET".to_string(),
        path: "/api/cards/1".to_string(),
        server_message: String::new(),
    };
    assert_eq!(err.exit_code(), 4);
    assert_eq!(err.error_type(), "ResourceNotFound");
}

#[test]
fn remote_404_display_includes_method_path_and_message() {
    let err = PlankaError::Remote404 {
        method: "GET".to_string(),
        path: "/api/cards/1".to_string(),
        server_message: "No such card".to_string(),
    };
    let msg = err.message();
    assert!(msg.contains("GET /api/cards/1"), "method + path missing: {msg}");
    assert!(msg.contains("No such card"), "server message missing: {msg}");
    assert!(!msg.contains("permission"), "permission hint leaked onto GET: {msg}");
}

#[test]
fn remote_404_display_warns_about_permissions_on_writes() {
    for method in ["POST", "PATCH", "PUT", "DELETE"] {
        let err = PlankaError::Remote404 {
            method: method.to_string(),
            path: "/api/projects/1/boards".to_string(),
            server_message: String::new(),
        };
        let msg = err.message();
        assert!(msg.contains("permission"), "missing permission hint on {method}: {msg}");
        assert!(msg.contains(method), "method missing: {msg}");
    }
}

#[test]
fn exit_code_api_error() {
    let err = PlankaError::ApiError { status: 500, message: "Internal Server Error".to_string() };
    assert_eq!(err.exit_code(), 5);
    assert_eq!(err.error_type(), "ApiError");
}

#[test]
fn error_envelope_structure() {
    let err = PlankaError::MissingRequiredOption { field: "--list".to_string() };
    let envelope = err.to_error_envelope();
    assert!(!envelope.success);
    assert_eq!(envelope.error.error_type, "MissingRequiredOption");
    assert_eq!(envelope.error.field, Some("--list".to_string()));
}

#[test]
fn error_envelope_no_field() {
    let err = PlankaError::NotFound { resource_type: "card".to_string(), id: "1234".to_string() };
    let envelope = err.to_error_envelope();
    assert!(envelope.error.field.is_none());
    assert_eq!(envelope.error.message, "Resource not found: card 1234");
}

#[test]
fn remote_404_lowercase_write_method_still_warns() {
    let err = PlankaError::Remote404 {
        method: "delete".to_string(),
        path: "/api/cards/1".to_string(),
        server_message: String::new(),
    };
    assert!(err.message().contains("permission"));
}

#[test]
fn exit_code_and_error_type_agree_for_local_errors() {
    let io = PlankaError::Io(std::io::Error::new(std::io::ErrorKind::Other, "disk"));
    assert_eq!(io.exit_code(), 1);
    assert_eq!(io.error_type(), "FileReadError");
    let json = PlankaError::Json(serde_json::from_str::<u8>("x").unwrap_err());
    assert_eq!(json.exit_code(), 1);
    assert_eq!(json.error_type(), "SerializationError");
    let api = PlankaError::ApiError { status: 502, message: "bad gateway".to_string() };
    assert_eq!(api.exit_code(), 5);
    assert_eq!(api.error_type(), "ApiError");
}
