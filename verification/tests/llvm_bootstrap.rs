use pythonbuild::llvm::{
    llvm_download, verify_llvm_archive, ArchiveError, BootstrapAction, BootstrapError, BootstrapEvent,
    Download, LlvmBootstrap, Phase,
};

const HELLO_SHA256: &str = "2cf24dba5fb0a30e26e83b2ac5b9e29e1b161e5c1fa7425e73043362938b9824";

fn download(url: &str) -> Download {
    Download { url: url.to_string(), size: 5, sha256: HELLO_SHA256.to_string() }
}

fn table() -> Vec<(String, Download)> {
    vec![
        ("llvm-aarch64-macos".to_string(), download("https://example.com/llvm/llvm-aarch64-apple-darwin.tar.zst")),
        ("llvm-x86_64-linux".to_string(), download("https://example.com/llvm/llvm-x86_64-linux.tar.zst")),
    ]
}

#[test]
fn archive_with_pinned_size_and_digest_verifies() {
    assert_eq!(verify_llvm_archive(b"hello", &download("https://x/y")), Ok(()));
}

#[test]
fn archive_of_another_size_is_rejected() {
    assert_eq!(
        verify_llvm_archive(b"hell", &download("https://x/y")),
        Err(ArchiveError::SizeMismatch { expected_size: 5, actual_size: 4 })
    );
}

#[test]
fn archive_with_another_digest_is_rejected() {
    assert_eq!(
        verify_llvm_archive(b"world", &download("https://x/y")),
        Err(ArchiveError::Sha256Mismatch {
            expected_sha256: HELLO_SHA256.to_string(),
            actual_sha256: "486ea46224d1bb4fb680f34f7c9ad96a8f24ec88be73ea8e5a6c65260e9cb8a7".to_string(),
        })
    );
}

#[test]
fn download_is_looked_up_by_arch_and_os() {
    let t = table();
    let d = llvm_download(&t, "linux", "x86_64").unwrap();
    assert_eq!(d.url, "https://example.com/llvm/llvm-x86_64-linux.tar.zst");
    match llvm_download(&t, "windows", "x86_64") {
        Err(BootstrapError::UnsupportedPlatform { os, arch }) => {
            assert_eq!(os, "windows");
            assert_eq!(arch, "x86_64");
        }
        _ => panic!("expected an unsupported platform"),
    }
}

#[test]
fn bootstrap_names_the_archive_after_the_url() {
    let b = LlvmBootstrap::new(&table(), "linux", "x86_64").unwrap();
    assert_eq!(b.filename(), "llvm-x86_64-linux.tar.zst");
    assert_eq!(b.phase(), Phase::AwaitingCache);
    assert_eq!(b.download().size, 5);
}

#[test]
fn bootstrap_rejects_urls_without_a_file_name() {
    let t = vec![("llvm-x86_64-linux".to_string(), download("https://example.com/llvm/"))];
    assert!(matches!(LlvmBootstrap::new(&t, "linux", "x86_64"), Err(BootstrapError::UrlWithoutFilename)));
    let t = vec![("llvm-x86_64-linux".to_string(), download("not a url"))];
    match LlvmBootstrap::new(&t, "linux", "x86_64") {
        Err(e @ BootstrapError::InvalidUrl(_)) => {
            assert_eq!(e.message(), url::Url::parse("not a url").unwrap_err().to_string())
        }
        _ => panic!("expected an invalid URL"),
    }
}

#[test]
fn bootstrap_downloads_verifies_and_publishes() {
    let mut b = LlvmBootstrap::new(&table(), "linux", "x86_64").unwrap();
    assert_eq!(b.step(&BootstrapEvent::CacheMissing), BootstrapAction::StartDownload);
    assert_eq!(b.step(&BootstrapEvent::Chunk { len: 3 }), BootstrapAction::WriteChunk);
    assert_eq!(b.phase(), Phase::Downloading { received: 3 });
    assert_eq!(b.step(&BootstrapEvent::Chunk { len: 2 }), BootstrapAction::WriteChunk);
    assert_eq!(
        b.step(&BootstrapEvent::DownloadFinished { archive: b"hello".to_vec() }),
        BootstrapAction::Extract
    );
    assert_eq!(b.step(&BootstrapEvent::OldTreeMissing), BootstrapAction::Publish);
    assert_eq!(b.phase(), Phase::Finished);
}

#[test]
fn bootstrap_stops_a_download_that_grows_too_large() {
    let mut b = LlvmBootstrap::new(&table(), "linux", "x86_64").unwrap();
    b.step(&BootstrapEvent::CacheMissing);
    assert_eq!(b.step(&BootstrapEvent::Chunk { len: 4 }), BootstrapAction::WriteChunk);
    assert_eq!(
        b.step(&BootstrapEvent::Chunk { len: 2 }),
        BootstrapAction::Fail(BootstrapError::DownloadTooLarge { expected: 5 })
    );
    assert_eq!(b.phase(), Phase::Failed);
}

#[test]
fn bootstrap_rejects_a_tampered_download() {
    let mut b = LlvmBootstrap::new(&table(), "linux", "x86_64").unwrap();
    b.step(&BootstrapEvent::CacheMissing);
    match b.step(&BootstrapEvent::DownloadFinished { archive: b"world".to_vec() }) {
        BootstrapAction::Fail(BootstrapError::DownloadRejected(ArchiveError::Sha256Mismatch { .. })) => {}
        other => panic!("unexpected {:?}", other),
    }
}

#[test]
fn bootstrap_uses_a_verified_cache_with_a_current_marker() {
    let mut b = LlvmBootstrap::new(&table(), "linux", "x86_64").unwrap();
    assert_eq!(
        b.step(&BootstrapEvent::CacheRead {
            archive: b"hello".to_vec(),
            marker: Some(HELLO_SHA256.to_string()),
        }),
        BootstrapAction::UseExisting
    );
}

#[test]
fn bootstrap_restages_a_verified_cache_without_marker() {
    let mut b = LlvmBootstrap::new(&table(), "linux", "x86_64").unwrap();
    assert_eq!(
        b.step(&BootstrapEvent::CacheRead { archive: b"hello".to_vec(), marker: None }),
        BootstrapAction::StageCached
    );
    assert_eq!(
        b.step(&BootstrapEvent::OldTreeRemovalFailed),
        BootstrapAction::Fail(BootstrapError::RemoveFailed)
    );
}

#[test]
fn bootstrap_rejects_a_corrupt_cache_even_with_a_marker() {
    let mut b = LlvmBootstrap::new(&table(), "linux", "x86_64").unwrap();
    assert_eq!(
        b.step(&BootstrapEvent::CacheRead {
            archive: b"hel".to_vec(),
            marker: Some(HELLO_SHA256.to_string()),
        }),
        BootstrapAction::Fail(BootstrapError::CachedArchiveRejected(ArchiveError::SizeMismatch {
            expected_size: 5,
            actual_size: 3,
        }))
    );
}

#[test]
fn bootstrap_refuses_events_out_of_order() {
    let mut b = LlvmBootstrap::new(&table(), "linux", "x86_64").unwrap();
    assert_eq!(
        b.step(&BootstrapEvent::Chunk { len: 1 }),
        BootstrapAction::Fail(BootstrapError::UnexpectedEvent)
    );
    assert_eq!(
        b.step(&BootstrapEvent::CacheMissing),
        BootstrapAction::Fail(BootstrapError::UnexpectedEvent)
    );
}

#[test]
fn bootstrap_reports_an_unreadable_cache() {
    let mut b = LlvmBootstrap::new(&table(), "linux", "x86_64").unwrap();
    assert_eq!(
        b.step(&BootstrapEvent::CacheOpenFailed),
        BootstrapAction::Fail(BootstrapError::CacheUnreadable)
    );
}

#[test]
fn a_second_bootstrap_reuses_the_installed_tree() {
    let downloads = table();
    let mut first = LlvmBootstrap::new(&downloads, "linux", "x86_64").unwrap();
    assert_eq!(first.step(&BootstrapEvent::CacheMissing), BootstrapAction::StartDownload);
    assert_eq!(first.step(&BootstrapEvent::Chunk { len: 5 }), BootstrapAction::WriteChunk);
    assert_eq!(
        first.step(&BootstrapEvent::DownloadFinished { archive: b"hello".to_vec() }),
        BootstrapAction::Extract
    );
    assert_eq!(first.step(&BootstrapEvent::OldTreeMissing), BootstrapAction::Publish);
    let mut second = LlvmBootstrap::new(&downloads, "linux", "x86_64").unwrap();
    assert_eq!(
        second.step(&BootstrapEvent::CacheRead {
            archive: b"hello".to_vec(),
            marker: Some(first.download().sha256.clone()),
        }),
        BootstrapAction::UseExisting
    );
    assert_eq!(second.phase(), Phase::Finished);
}
