use wokhei::error::AppError;

#[test]
fn code_keys_not_found() {
    let e = AppError::KeysNotFound { path: "/tmp".into() };
    assert_eq!(e.code(), "KEYS_NOT_FOUND");
}

#[test]
fn code_relay_unreachable() {
    let e = AppError::RelayUnreachable { url: "ws://x".into() };
    assert_eq!(e.code(), "RELAY_UNREACHABLE");
}

#[test]
fn code_relay_rejected() {
    let e = AppError::RelayRejected { reason: "nope".into() };
    assert_eq!(e.code(), "RELAY_REJECTED");
}

#[test]
fn code_header_not_found() {
    let e = AppError::HeaderNotFound { event_id: "abc".into() };
    assert_eq!(e.code(), "HEADER_NOT_FOUND");
}

#[test]
fn code_header_missing_d_tag() {
    assert_eq!(AppError::HeaderMissingDTag.code(), "HEADER_MISSING_D_TAG");
}

#[test]
fn code_invalid_event_id() {
    let e = AppError::InvalidEventId { id: "bad".into() };
    assert_eq!(e.code(), "INVALID_EVENT_ID");
}

#[test]
fn code_no_results() {
    assert_eq!(AppError::NoResults.code(), "NO_RESULTS");
}

#[test]
fn code_invalid_nsec() {
    assert_eq!(AppError::InvalidNsec.code(), "INVALID_NSEC");
}

#[test]
fn code_keys_save_failed() {
    let e = AppError::KeysSaveFailed { reason: "disk".into() };
    assert_eq!(e.code(), "KEYS_SAVE_FAILED");
}

#[test]
fn code_keys_already_exist() {
    let e = AppError::KeysAlreadyExist { path: "/x".into() };
    assert_eq!(e.code(), "KEYS_ALREADY_EXIST");
}

#[test]
fn code_invalid_coordinate() {
    let e = AppError::InvalidCoordinate { input: "bad".into() };
    assert_eq!(e.code(), "INVALID_COORDINATE");
}

#[test]
fn code_io_error() {
    let e = AppError::Io { reason: "fail".into() };
    assert_eq!(e.code(), "IO_ERROR");
}

#[test]
fn code_invalid_json() {
    let e = AppError::InvalidJson { reason: "parse".into() };
    assert_eq!(e.code(), "INVALID_JSON");
}

#[test]
fn relay_unreachable_is_retryable() {
    let e = AppError::RelayUnreachable { url: "ws://x".into() };
    assert!(e.retryable());
}

#[test]
fn non_relay_errors_are_not_retryable() {
    assert!(!AppError::KeysNotFound { path: "/x".into() }.retryable());
    assert!(!AppError::RelayRejected { reason: "x".into() }.retryable());
    assert!(
        !AppError::HeaderNotFound {
            event_id: "x".into()
        }
        .retryable()
    );
    assert!(!AppError::HeaderMissingDTag.retryable());
    assert!(!AppError::InvalidEventId { id: "x".into() }.retryable());
    assert!(!AppError::NoResults.retryable());
    assert!(!AppError::InvalidNsec.retryable());
    assert!(!AppError::KeysSaveFailed { reason: "x".into() }.retryable());
    assert!(!AppError::KeysAlreadyExist { path: "x".into() }.retryable());
    assert!(!AppError::InvalidCoordinate { input: "x".into() }.retryable());
    assert!(!AppError::Io { reason: "x".into() }.retryable());
    assert!(!AppError::InvalidJson { reason: "x".into() }.retryable());
}

#[test]
fn fix_keys_not_found_suggests_init() {
    let fix = AppError::KeysNotFound { path: "/tmp".into() }.fix();
    assert!(fix.contains("init"));
}

#[test]
fn fix_relay_unreachable_contains_url() {
    let fix = AppError::RelayUnreachable {
        url: "ws://myrelay".into(),
    }
    .fix();
    assert!(fix.contains("ws://myrelay"));
}

#[test]
fn fix_keys_already_exist_contains_path() {
    let fix = AppError::KeysAlreadyExist {
        path: "/home/.wokhei/keys".into(),
    }
    .fix();
    assert!(fix.contains("/home/.wokhei/keys"));
}

#[test]
fn fix_strings_are_all_non_empty() {
    let variants: Vec<AppError> = vec![
        AppError::KeysNotFound { path: "p".into() },
        AppError::RelayUnreachable { url: "u".into() },
        AppError::RelayRejected { reason: "r".into() },
        AppError::HeaderNotFound {
            event_id: "e".into(),
        },
        AppError::HeaderMissingDTag,
        AppError::InvalidEventId { id: "i".into() },
        AppError::NoResults,
        AppError::InvalidNsec,
        AppError::KeysSaveFailed { reason: "r".into() },
        AppError::KeysAlreadyExist { path: "p".into() },
        AppError::InvalidCoordinate { input: "i".into() },
        AppError::Io { reason: "r".into() },
        AppError::InvalidJson { reason: "r".into() },
    ];
    for v in variants {
        assert!(!v.fix().is_empty(), "fix() empty for {}", v.code());
    }
}

#[test]
fn message_contains_interpolated_field() {
    let e = AppError::Io {
        reason: "disk full".into(),
    };
    assert!(e.message().contains("disk full"));
    assert_eq!(
        AppError::NoResults.message(),
        "No results for query"
    );
}
