use atomo_vfs::error::{IoFailure, IoKind};
use atomo_vfs::{VfsError, VfsUri};

fn uri() -> VfsUri {
    VfsUri::parse("mem://t/a%20b").unwrap()
}

fn failure(kind: IoKind, code: Option<i32>, unix: bool) -> IoFailure {
    IoFailure { kind, raw_os_error: code, unix, message: "boom".to_string() }
}

#[test]
fn every_error_has_its_code_and_message() {
    let cases = vec![
        (VfsError::NotFound(uri()), "not_found", "not found: mem://t/a%20b"),
        (VfsError::AlreadyExists(uri()), "already_exists", "already exists: mem://t/a%20b"),
        (
            VfsError::PermissionDenied(uri()),
            "permission_denied",
            "permission denied: mem://t/a%20b",
        ),
        (VfsError::NotADirectory(uri()), "not_a_directory", "not a directory: mem://t/a%20b"),
        (VfsError::IsADirectory(uri()), "is_a_directory", "is a directory: mem://t/a%20b"),
        (
            VfsError::DirectoryNotEmpty(uri()),
            "directory_not_empty",
            "directory not empty: mem://t/a%20b",
        ),
        (VfsError::InvalidUri("x".to_string()), "invalid_uri", "invalid uri: x"),
        (VfsError::InvalidTarget("x".to_string()), "invalid_target", "invalid target: x"),
        (VfsError::NoProvider("x".to_string()), "no_provider", "no provider for scheme: x"),
        (
            VfsError::NotSupported { capability: "watch".to_string() },
            "not_supported",
            "not supported: watch",
        ),
        (VfsError::Cancelled, "cancelled", "cancelled"),
        (VfsError::TooLarge { limit: 10 }, "too_large", "too large: limit is 10 bytes"),
        (VfsError::Io { message: "x".to_string() }, "io", "io error: x"),
        (
            VfsError::Provider { code: "trash".to_string(), message: "x".to_string() },
            "provider",
            "provider error [trash]: x",
        ),
    ];
    for (error, code, message) in cases {
        assert_eq!(error.code(), code);
        assert_eq!(error.to_string(), message);
        assert_eq!(error.clone().to_string(), message);
    }
}

#[test]
fn some_errors_are_about_a_uri() {
    assert_eq!(VfsError::NotFound(uri()).uri(), Some(&uri()));
    assert_eq!(VfsError::DirectoryNotEmpty(uri()).uri(), Some(&uri()));
    assert_eq!(VfsError::Cancelled.uri(), None);
    assert_eq!(VfsError::InvalidUri("x".to_string()).uri(), None);
}

#[test]
fn io_failures_become_typed_errors() {
    let code = |f: IoFailure| VfsError::from_io(f, &uri()).code();
    assert_eq!(code(failure(IoKind::NotFound, None, true)), "not_found");
    assert_eq!(code(failure(IoKind::PermissionDenied, None, true)), "permission_denied");
    assert_eq!(code(failure(IoKind::AlreadyExists, None, true)), "already_exists");
    assert_eq!(code(failure(IoKind::DirectoryNotEmpty, None, true)), "directory_not_empty");
    assert_eq!(code(failure(IoKind::Other, Some(39), true)), "directory_not_empty");
    assert_eq!(code(failure(IoKind::Other, Some(39), false)), "io");
    assert_eq!(code(failure(IoKind::Other, Some(5), true)), "io");
    assert_eq!(
        VfsError::from_io(failure(IoKind::Other, None, true), &uri()).to_string(),
        "io error: boom"
    );
}
