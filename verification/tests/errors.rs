use portkill::error::AppError;

#[test]
fn error_display_is_user_actionable() {
    let err = AppError::AccessDenied { port: 80 };
    let msg = err.to_string();
    assert!(msg.contains("80"), "message should name the port");
    assert!(msg.contains("sudo"), "message should suggest sudo");
}

#[test]
fn invalid_port_includes_reason() {
    let err = AppError::InvalidPort {
        raw: "abc".into(),
        reason: "not a number".into(),
    };
    assert!(err.to_string().contains("abc"));
    assert!(err.to_string().contains("not a number"));
}

#[test]
fn io_variant_carries_path_and_source() {
    let underlying = std::io::Error::new(std::io::ErrorKind::NotFound, "boom");
    let err = AppError::io("/proc/9999/status", underlying.to_string());
    let msg = err.to_string();
    assert!(msg.contains("/proc/9999/status"));
    assert!(msg.contains("boom"));
}

#[test]
fn messages_in_full() {
    assert_eq!(
        AppError::OsCommandFailed {
            command: "lsof",
            message: "x".into()
        }
        .to_string(),
        "the system command `lsof` failed: x"
    );
    assert_eq!(
        AppError::UnparseableOutput {
            port: 80,
            reason: "x".into()
        }
        .to_string(),
        "failed to interpret operating-system output for port 80: x"
    );
    assert_eq!(
        AppError::OsApi {
            message: "x".into()
        }
        .to_string(),
        "operating-system API error: x"
    );
    assert_eq!(AppError::internal("x".into()).to_string(), "x");
    assert_eq!(AppError::kill_failed("x".into()).to_string(), "x");
    assert_eq!(
        AppError::io("/p", "x".into()).to_string(),
        "could not read /p: x"
    );
    assert_eq!(
        AppError::AccessDenied { port: 80 }.to_string(),
        "port 80 requires elevated privileges to inspect or is protected by the system. \
         Try running `pk` with `sudo` (on macOS/Linux)."
    );
}
