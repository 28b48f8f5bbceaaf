use analytics_collector::errors::{check_exchange_status, check_upload_status, ApplicationError, ExportError};

#[test]
fn invalid_payload_is_bad_request_with_its_text() {
    let e = ApplicationError::InvalidPayload("missing entity".to_string());
    assert_eq!(e.status_code(), 400);
    assert_eq!(e.response_body(), "missing entity");
}

#[test]
fn unknown_error_hides_its_cause() {
    let e = ApplicationError::Unknown("db down".to_string());
    assert_eq!(e.status_code(), 500);
    assert_eq!(e.response_body(), "Internal Server Error");
}

#[test]
fn exchange_status_outcomes() {
    assert!(check_exchange_status(200, String::new()).is_ok());
    assert!(check_exchange_status(299, String::new()).is_ok());
    match check_exchange_status(403, "denied".to_string()) {
        Err(ExportError::Auth { status, body }) => {
            assert_eq!(status, 403);
            assert_eq!(body, "denied");
        }
        _ => panic!("expected an authentication error"),
    }
}

#[test]
fn upload_status_outcomes() {
    assert!(check_upload_status(201, String::new()).is_ok());
    assert!(matches!(check_upload_status(500, "x".to_string()), Err(ExportError::Upload { status: 500, .. })));
    assert!(matches!(check_upload_status(199, "x".to_string()), Err(ExportError::Upload { status: 199, .. })));
}
