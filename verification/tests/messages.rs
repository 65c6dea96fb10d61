use pythonbuild::llvm::{ArchiveError, BootstrapError};
use pythonbuild::text::{decimal_string, str_lt};
use pythonbuild::wanted::WantedFilenamesError;

#[test]
fn decimal_notation() {
    assert_eq!(decimal_string(0), "0");
    assert_eq!(decimal_string(7), "7");
    assert_eq!(decimal_string(10), "10");
    assert_eq!(decimal_string(1234567890), "1234567890");
    assert_eq!(decimal_string(u64::MAX), "18446744073709551615");
}

#[test]
fn size_mismatch_message() {
    let e = ArchiveError::SizeMismatch { expected_size: 123456, actual_size: 42 };
    assert_eq!(e.message(), "LLVM archive size mismatch: expected 123456, got 42");
}

#[test]
fn digest_mismatch_message() {
    let e = ArchiveError::Sha256Mismatch { expected_sha256: "aa".to_string(), actual_sha256: "bb".to_string() };
    assert_eq!(e.message(), "LLVM archive SHA-256 mismatch: expected aa, got bb");
}

#[test]
fn bootstrap_error_messages() {
    let e = BootstrapError::UnsupportedPlatform { os: "plan9".to_string(), arch: "mips".to_string() };
    assert_eq!(e.message(), "unsupported LLVM bootstrap platform: plan9-mips");
    assert_eq!(BootstrapError::UrlWithoutFilename.message(), "LLVM URL has no filename");
    assert_eq!(BootstrapError::CacheUnreadable.message(), "failed to open cached LLVM archive");
    assert_eq!(BootstrapError::RemoveFailed.message(), "failed to remove existing llvm directory");
    assert_eq!(
        BootstrapError::DownloadTooLarge { expected: 5 }.message(),
        "LLVM archive exceeds expected size of 5 bytes"
    );
    assert_eq!(BootstrapError::InvalidUrl("relative URL without a base".to_string()).message(), "relative URL without a base");
    assert_eq!(
        BootstrapError::UnexpectedEvent.message(),
        "LLVM bootstrap received an event it did not expect"
    );
}

#[test]
fn rejected_archive_messages_carry_the_reason() {
    let reason = ArchiveError::SizeMismatch { expected_size: 5, actual_size: 4 };
    assert_eq!(
        BootstrapError::CachedArchiveRejected(reason.clone()).message(),
        "cached LLVM archive failed verification; remove build/llvm and retry: LLVM archive size mismatch: expected 5, got 4"
    );
    assert_eq!(
        BootstrapError::DownloadRejected(reason).message(),
        "LLVM archive size mismatch: expected 5, got 4"
    );
}

#[test]
fn wanted_filenames_error_messages() {
    let e = WantedFilenamesError::InvalidVersion { version: "x.y".to_string(), reason: "bad version".to_string() };
    assert_eq!(e.message(), "bad version");
    assert_eq!(
        WantedFilenamesError::InvalidSpecifier.message(),
        "invalid version specifier in the release matrix"
    );
}

#[test]
fn text_order_is_by_code_point_with_prefixes_first() {
    assert!(str_lt("a", "b"));
    assert!(!str_lt("b", "a"));
    assert!(str_lt("ab", "abc"));
    assert!(!str_lt("abc", "ab"));
    assert!(!str_lt("same", "same"));
    assert!(str_lt("", "a"));
    assert!(str_lt("Z", "a"));
    assert!(str_lt("z", "é"));
}
