//! Wire error codes.

use velcrux::protocol::error::{ErrorCode, ErrorDetail, ERROR_CODE_NAMES};
use velcrux::protocol::limits::MAX_ERROR_DETAIL;

#[test]
fn retryability_table() {
    assert!(!ErrorCode::AuthFailed.retryable());
    assert!(!ErrorCode::PermissionDenied.retryable());
    assert!(ErrorCode::ChecksumMismatch.retryable());
    assert!(ErrorCode::ServerBusy.retryable());
    assert!(!ErrorCode::TransferCancelled.retryable());
    assert!(!ErrorCode::QuotaExceeded.retryable());
}

#[test]
fn roundtrip_codes() {
    for (code, _name) in ERROR_CODE_NAMES.iter() {
        let c = ErrorCode::from_wire(*code);
        assert_eq!(c.to_wire(), *code, "code {code} did not round-trip");
    }
}

#[test]
fn unknown_code_falls_back() {
    assert_eq!(ErrorCode::from_wire(99999), ErrorCode::InternalError);
}

#[test]
fn detail_is_truncated() {
    let s = "x".repeat(MAX_ERROR_DETAIL + 1000);
    let d = ErrorDetail::new(s);
    assert!(d.as_str().len() <= MAX_ERROR_DETAIL);
}

#[test]
fn not_found_and_denied_share_detail() {
    assert_eq!(ErrorDetail::not_found_or_denied().0, "not found");
}
