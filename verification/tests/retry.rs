use scrap::error::{Error, ErrorKind};
use scrap::retry::{
    child_error, helper_failure, privileged_failure, should_retry_privileged,
    should_retry_privileged_message,
};

#[test]
fn client_retries_on_four_phrases() {
    for message in [
        "open: Permission Denied (os error 13)",
        "Operation not permitted",
        "framebuffer has no accessible GEM handle",
        "crtc has no active framebuffer",
    ] {
        assert!(should_retry_privileged_message(message), "{message}");
    }
    for message in ["", "permission", "unsupported framebuffer format: NV12"] {
        assert!(!should_retry_privileged_message(message), "{message}");
    }
}

#[test]
fn helper_retries_on_three_of_them() {
    assert!(should_retry_privileged(&Error::other("PERMISSION DENIED")));
    assert!(should_retry_privileged(&Error::other("operation NOT permitted")));
    assert!(should_retry_privileged(&Error::other("framebuffer has no accessible GEM handle")));
    assert!(!should_retry_privileged(&Error::other("crtc has no active framebuffer")));
}

#[test]
fn tells_kinds_of_helper_failures() {
    let err = helper_failure("  Error: Permission denied\n");
    assert_eq!(err.kind, ErrorKind::PermissionDenied);
    assert_eq!(err.message, "Error: Permission denied");
    assert_eq!(helper_failure("operation not permitted").kind, ErrorKind::PermissionDenied);
    assert_eq!(helper_failure("UNSUPPORTED framebuffer").kind, ErrorKind::Unsupported);
    assert_eq!(helper_failure("boom").kind, ErrorKind::Other);
    assert_eq!(helper_failure(" \n").message, "kms helper failed");
    let err = privileged_failure("");
    assert_eq!(err.kind, ErrorKind::PermissionDenied);
    assert_eq!(err.message, "privileged kms helper failed");
    assert_eq!(privileged_failure(" no \n").message, "no");
}

#[test]
fn child_errors_are_permissions_where_a_retry_may_help() {
    let err = child_error("", "kms helper exited before ready");
    assert_eq!((err.kind, err.message.as_str()), (ErrorKind::Other, "kms helper exited before ready"));
    let err = child_error("Error: crtc has no active framebuffer\n", "fallback");
    assert_eq!(err.kind, ErrorKind::PermissionDenied);
    assert_eq!(err.message, "Error: crtc has no active framebuffer");
}
