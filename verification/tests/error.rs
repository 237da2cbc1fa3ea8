use assuan::{Error, ErrorCode};

#[test]
fn error_code_display() {
    assert_eq!(ErrorCode::GENERAL.to_string(), "1");
    assert_eq!(ErrorCode::ASS_UNKNOWN_CMD.to_string(), "275");
}

#[test]
fn error_error_code_equality() {
    assert_eq!(ErrorCode::GENERAL, ErrorCode(1));
    assert_ne!(ErrorCode::GENERAL, ErrorCode(2));
}

#[test]
fn error_new_with_str() {
    let e = Error::new(ErrorCode::GENERAL, "oops");
    assert!(matches!(
        e,
        Error::Protocol {
            code: ErrorCode::GENERAL,
            msg: Some(s)
        } if s == "oops"
    ));
}

#[test]
fn error_error_new_with_string() {
    let e = Error::new(ErrorCode::ASS_UNKNOWN_CMD, "bad cmd".to_string());
    assert!(matches!(
        e,
        Error::Protocol {
            code: ErrorCode::ASS_UNKNOWN_CMD,
            msg: Some(s)
        } if s == "bad cmd"
    ));
}

#[test]
fn error_from_code() {
    let e: Error = ErrorCode::CANCELED.into();
    assert!(matches!(
        e,
        Error::Protocol {
            code: ErrorCode::CANCELED,
            msg: None
        }
    ));
}
