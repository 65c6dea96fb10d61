//! The LLVM toolchain archive: which download serves a platform, how a
//! downloaded or cached archive is checked against its pinned size and SHA-256,
//! and the decisions of the bootstrap that fetches, verifies and installs it.
//! The bootstrap is a state machine: the caller performs each action (file
//! and network work) and reports what happened as the next event.

use vstd::prelude::*;
use sha2::Digest;
use crate::text::{decimal, decimal_string, str_equal};

verus! {

/// A pinned download: where it lives, its size in bytes and its SHA-256 as
/// lowercase hex.
#[derive(Debug, Clone, PartialEq, Eq)]
pub struct Download {
    pub url: String,
    pub size: u64,
    pub sha256: String,
}

/// Why an archive was not accepted.
#[derive(Debug, Clone, PartialEq, Eq)]
pub enum ArchiveError {
    /// The archive does not have the pinned size.
    SizeMismatch { expected_size: u64, actual_size: u64 },
    /// The archive has the pinned size but another SHA-256.
    Sha256Mismatch { expected_sha256: String, actual_sha256: String },
}

/// Why the LLVM bootstrap stopped.
#[derive(Debug, Clone, PartialEq, Eq)]
pub enum BootstrapError {
    /// No LLVM download is pinned for this platform.
    UnsupportedPlatform { os: String, arch: String },
    /// The download URL does not parse, for the reason that `url` gives.
    InvalidUrl(String),
    /// The download URL has no file name.
    UrlWithoutFilename,
    /// The cached archive exists but could not be opened.
    CacheUnreadable,
    /// The cached archive failed verification.
    CachedArchiveRejected(ArchiveError),
    /// The download grew past the pinned size.
    DownloadTooLarge { expected: u64 },
    /// The downloaded archive failed verification.
    DownloadRejected(ArchiveError),
    /// The previously installed tree could not be removed.
    RemoveFailed,
    /// An event arrived that the current phase does not expect.
    UnexpectedEvent,
}

/// What an archive error reads as.
pub open spec fn archive_error_text(e: ArchiveError) -> Seq<char> {
    match e {
        ArchiveError::SizeMismatch { expected_size, actual_size } => "LLVM archive size mismatch: expected "@
            + decimal(expected_size as nat) + ", got "@ + decimal(actual_size as nat),
        ArchiveError::Sha256Mismatch { expected_sha256, actual_sha256 } => "LLVM archive SHA-256 mismatch: expected "@
            + expected_sha256@ + ", got "@ + actual_sha256@,
    }
}

impl ArchiveError {
    /// The error as text, for people.
    pub fn message(&self) -> (m: String)
        ensures
            m@ == archive_error_text(*self),
    {
        match self {
            ArchiveError::SizeMismatch { expected_size, actual_size } => {
                let mut m = String::from_str("LLVM archive size mismatch: expected ");
                m.append(decimal_string(*expected_size).as_str());
                m.append(", got ");
                m.append(decimal_string(*actual_size).as_str());
                m
            },
            ArchiveError::Sha256Mismatch { expected_sha256, actual_sha256 } => {
                let mut m = String::from_str("LLVM archive SHA-256 mismatch: expected ");
                m.append(expected_sha256.as_str());
                m.append(", got ");
                m.append(actual_sha256.as_str());
                m
            },
        }
    }
}

/// What a bootstrap error reads as. A rejected cached archive names the
/// directory to remove, then the reason.
pub open spec fn bootstrap_error_text(e: BootstrapError) -> Seq<char> {
    match e {
        BootstrapError::UnsupportedPlatform { os, arch } => "unsupported LLVM bootstrap platform: "@ + os@ + "-"@
            + arch@,
        BootstrapError::InvalidUrl(reason) => reason@,
        BootstrapError::UrlWithoutFilename => "LLVM URL has no filename"@,
        BootstrapError::CacheUnreadable => "failed to open cached LLVM archive"@,
        BootstrapError::CachedArchiveRejected(a) => "cached LLVM archive failed verification; remove build/llvm and retry: "@
            + archive_error_text(a),
        BootstrapError::DownloadTooLarge { expected } => "LLVM archive exceeds expected size of "@ + decimal(
            expected as nat,
        ) + " bytes"@,
        BootstrapError::DownloadRejected(a) => archive_error_text(a),
        BootstrapError::RemoveFailed => "failed to remove existing llvm directory"@,
        BootstrapError::UnexpectedEvent => "LLVM bootstrap received an event it did not expect"@,
    }
}

impl BootstrapError {
    /// The error as text, for people.
    pub fn message(&self) -> (m: String)
        ensures
            m@ == bootstrap_error_text(*self),
    {
        match self {
            BootstrapError::UnsupportedPlatform { os, arch } => {
                let mut m = String::from_str("unsupported LLVM bootstrap platform: ");
                m.append(os.as_str());
                m.append("-");
                m.append(arch.as_str());
                m
            },
            BootstrapError::InvalidUrl(reason) => reason.clone(),
            BootstrapError::UrlWithoutFilename => String::from_str("LLVM URL has no filename"),
            BootstrapError::CacheUnreadable => String::from_str("failed to open cached LLVM archive"),
            BootstrapError::CachedArchiveRejected(a) => {
                let mut m = String::from_str(
                    "cached LLVM archive failed verification; remove build/llvm and retry: ",
                );
                m.append(a.message().as_str());
                m
            },
            BootstrapError::DownloadTooLarge { expected } => {
                let mut m = String::from_str("LLVM archive exceeds expected size of ");
                m.append(decimal_string(*expected).as_str());
                m.append(" bytes");
                m
            },
            BootstrapError::DownloadRejected(a) => a.message(),
            BootstrapError::RemoveFailed => String::from_str("failed to remove existing llvm directory"),
            BootstrapError::UnexpectedEvent => String::from_str("LLVM bootstrap received an event it did not expect"),
        }
    }
}

/// What SHA-256 (through the `sha2` crate) gives for the bytes.
pub uninterp spec fn sha256(data: Seq<u8>) -> Seq<u8>;

/// The hex digit of a value below 16, lowercase.
pub open spec fn hex_digit(n: int) -> char {
    "0123456789abcdef"@[n]
}

/// Two lowercase hex digits per byte, high nibble first.
pub open spec fn hex_lower(bytes: Seq<u8>) -> Seq<char> {
    Seq::new(
        2 * bytes.len(),
        |i: int|
            if i % 2 == 0 {
                hex_digit((bytes[i / 2] / 16) as int)
            } else {
                hex_digit((bytes[i / 2] % 16) as int)
            },
    )
}

/// Calls `sha2::Sha256::digest` on the bytes.
/// Claimed: the result is `sha256` of the bytes, a function of them alone, and
/// has the 32 bytes of a SHA-256 digest; the hash itself is not stated.
#[verifier::external_body]
fn sha256_digest(data: &[u8]) -> (d: Vec<u8>)
    ensures
        d@ == sha256(data@),
        d@.len() == 32,
{
    sha2::Sha256::digest(data).to_vec()
}

/// Two lowercase hex digits per byte, high nibble first, as `hex::encode`
/// writes them.
fn hex_encode(data: &[u8]) -> (s: String)
    ensures
        s@ == hex_lower(data@),
{
    let digits = "0123456789abcdef";
    proof {
        reveal_strlit("0123456789abcdef");
    }
    let mut s = String::new();
    let mut i: usize = 0;
    assert(s@ =~= hex_lower(data@.take(0)));
    while i < data.len()
        invariant
            i <= data@.len(),
            digits@ == "0123456789abcdef"@,
            digits@.len() == 16,
            s@ == hex_lower(data@.take(i as int)),
        decreases data@.len() - i,
    {
        let b = data[i];
        let hi = (b / 16) as usize;
        let lo = (b % 16) as usize;
        let ghost before = s@;
        s.append(digits.substring_char(hi, hi + 1));
        s.append(digits.substring_char(lo, lo + 1));
        let ghost next = data@.take(i + 1);
        assert forall|j: int| 0 <= j < 2 * i implies #[trigger] hex_lower(next)[j] == before[j] by {
            assert(next[j / 2] == data@.take(i as int)[j / 2]);
        }
        assert(hex_lower(next)[2 * i] == hex_digit((b / 16) as int));
        assert(hex_lower(next)[2 * i + 1] == hex_digit((b % 16) as int));
        assert(s@ =~= hex_lower(next));
        i = i + 1;
    }
    assert(data@.take(data@.len() as int) =~= data@);
    s
}

/// The archive has the pinned size and SHA-256.
pub open spec fn archive_verified(data: Seq<u8>, download: Download) -> bool {
    &&& data.len() == download.size
    &&& hex_lower(sha256(data)) == download.sha256@
}

/// `e` is the error that checking `data` against `download` reports: the size
/// is checked first, then the digest.
pub open spec fn is_archive_error(e: ArchiveError, data: Seq<u8>, download: Download) -> bool {
    match e {
        ArchiveError::SizeMismatch { expected_size, actual_size } => {
            &&& data.len() != download.size
            &&& expected_size == download.size
            &&& actual_size == data.len()
        },
        ArchiveError::Sha256Mismatch { expected_sha256, actual_sha256 } => {
            &&& data.len() == download.size
            &&& hex_lower(sha256(data)) != download.sha256@
            &&& expected_sha256@ == download.sha256@
            &&& actual_sha256@ == hex_lower(sha256(data))
        },
    }
}

/// Checks an archive against its pinned size and SHA-256 before it reaches
/// the decompressor.
pub fn verify_llvm_archive(data: &[u8], download: &Download) -> (r: Result<(), ArchiveError>)
    ensures
        match r {
            Ok(()) => archive_verified(data@, *download),
            Err(e) => !archive_verified(data@, *download) && is_archive_error(e, data@, *download),
        },
{
    let size = data.len() as u64;
    if size != download.size {
        return Err(ArchiveError::SizeMismatch { expected_size: download.size, actual_size: size });
    }
    let digest = sha256_digest(data);
    let sha = hex_encode(digest.as_slice());
    if !str_equal(sha.as_str(), download.sha256.as_str()) {
        return Err(ArchiveError::Sha256Mismatch { expected_sha256: download.sha256.clone(), actual_sha256: sha });
    }
    Ok(())
}

/// The key under which the LLVM download of a platform is pinned.
pub open spec fn llvm_key(os: Seq<char>, arch: Seq<char>) -> Seq<char> {
    "llvm-"@ + arch + "-"@ + os
}

/// The LLVM download pinned for the platform, looked up in the table of
/// pinned downloads under `llvm-{arch}-{os}`.
pub fn llvm_download<'a>(downloads: &'a Vec<(String, Download)>, os: &str, arch: &str) -> (r: Result<
    &'a Download,
    BootstrapError,
>)
    ensures
        match r {
            Ok(d) => exists|i: int|
                0 <= i < downloads@.len() && downloads@[i].0@ == llvm_key(os@, arch@) && downloads@[i].1 == *d
                    && forall|j: int| 0 <= j < i ==> downloads@[j].0@ != llvm_key(os@, arch@),
            Err(e) => {
                &&& e matches BootstrapError::UnsupportedPlatform { os: eo, arch: ea } && eo@ == os@ && ea@ == arch@
                &&& forall|i: int| 0 <= i < downloads@.len() ==> downloads@[i].0@ != llvm_key(os@, arch@)
            },
        },
{
    let mut key = String::from_str("llvm-");
    key.append(arch);
    key.append("-");
    key.append(os);
    let mut i: usize = 0;
    while i < downloads.len()
        invariant
            i <= downloads@.len(),
            key@ == llvm_key(os@, arch@),
            forall|j: int| 0 <= j < i ==> downloads@[j].0@ != llvm_key(os@, arch@),
        decreases downloads@.len() - i,
    {
        if str_equal(downloads[i].0.as_str(), key.as_str()) {
            return Ok(&downloads[i].1);
        }
        i = i + 1;
    }
    Err(BootstrapError::UnsupportedPlatform { os: os.to_owned(), arch: arch.to_owned() })
}


/// What `url` (the crate) gives for the text: the text of the error
/// (`Display`) where `Url::parse` fails, `None` where the URL has no path
/// segments, else its last path segment.
pub uninterp spec fn url_last_path_segment(url: Seq<char>) -> Result<Option<Seq<char>>, Seq<char>>;

pub open spec fn segment_result_view(o: Result<Option<String>, String>) -> Result<Option<Seq<char>>, Seq<char>> {
    match o {
        Err(e) => Err(e@),
        Ok(None) => Ok(None),
        Ok(Some(s)) => Ok(Some(s@)),
    }
}

/// Parses the text with `url::Url::parse` and takes the last item of
/// `path_segments()`, or the text of the parse error.
/// Claimed: the result is `url_last_path_segment` of the text, a function of
/// it alone; URL parsing itself is not stated.
#[verifier::external_body]
fn last_path_segment(url: &str) -> (r: Result<Option<String>, String>)
    ensures
        segment_result_view(r) == url_last_path_segment(url@),
{
    match url::Url::parse(url) {
        Err(e) => Err(e.to_string()),
        Ok(u) => match u.path_segments() {
            None => Ok(None),
            Some(mut segments) => Ok(segments.next_back().map(String::from)),
        },
    }
}

/// The file name of the archive behind a download URL: the last segment of
/// its path, which must not be empty.
pub open spec fn archive_filename(url: Seq<char>) -> Option<Seq<char>> {
    match url_last_path_segment(url) {
        Ok(Some(name)) => if name.len() > 0 {
            Some(name)
        } else {
            None
        },
        _ => None,
    }
}

/// Where the bootstrap stands.
#[derive(Debug, Clone, Copy, PartialEq, Eq)]
pub enum Phase {
    /// Waiting to learn whether a cached archive exists.
    AwaitingCache,
    /// Receiving the archive; `received` bytes have arrived so far.
    Downloading { received: u64 },
    /// A verified archive has been extracted into the staging directory; waiting
    /// for the old tree to be removed.
    Publishing,
    /// The tree is in place.
    Finished,
    /// The bootstrap stopped on an error.
    Failed,
}

/// What the caller observed after performing the last action.
pub enum BootstrapEvent {
    /// No cached archive exists.
    CacheMissing,
    /// A cached archive exists but could not be opened.
    CacheOpenFailed,
    /// The cached archive's bytes, and the contents of the verification marker
    /// next to the extracted tree where that could be read.
    CacheRead { archive: Vec<u8>, marker: Option<String> },
    /// A chunk of `len` bytes of the download arrived.
    Chunk { len: u64 },
    /// The download ended; these are the bytes written to the staging file.
    DownloadFinished { archive: Vec<u8> },
    /// The previously installed tree was removed.
    OldTreeRemoved,
    /// There was no previously installed tree.
    OldTreeMissing,
    /// The previously installed tree could not be removed.
    OldTreeRemovalFailed,
}

/// What the caller is to do next.
#[derive(Debug, Clone, PartialEq, Eq)]
pub enum BootstrapAction {
    /// The extracted tree is verified and current: use it.
    UseExisting,
    /// Copy the verified cached archive into the staging directory, extract it,
    /// write the marker, then remove the old tree.
    StageCached,
    /// Start downloading the archive into the staging directory.
    StartDownload,
    /// Write the chunk that just arrived to the staging file.
    WriteChunk,
    /// Extract the verified downloaded archive, write the marker, then remove
    /// the old tree.
    Extract,
    /// Move the staging directory into place; the bootstrap is done.
    Publish,
    /// Stop with this error.
    Fail(BootstrapError),
}

/// The bootstrap, in `phase` and for the pinned download `d`, answers
/// `event` by moving to phase `p` with action `a`.
pub open spec fn bootstrap_step(phase: Phase, event: BootstrapEvent, d: Download, p: Phase, a: BootstrapAction) -> bool {
    match (phase, event) {
        (Phase::AwaitingCache, BootstrapEvent::CacheMissing) => p == (Phase::Downloading {
            received: 0,
        }) && a == BootstrapAction::StartDownload,
        (Phase::AwaitingCache, BootstrapEvent::CacheOpenFailed) => p == Phase::Failed && a
            == BootstrapAction::Fail(BootstrapError::CacheUnreadable),
        (Phase::AwaitingCache, BootstrapEvent::CacheRead { archive, marker }) => if archive_verified(
            archive@,
            d,
        ) {
            if marker matches Some(m) && m@ == d.sha256@ {
                p == Phase::Finished && a == BootstrapAction::UseExisting
            } else {
                p == Phase::Publishing && a == BootstrapAction::StageCached
            }
        } else {
            &&& p == Phase::Failed
            &&& a matches BootstrapAction::Fail(BootstrapError::CachedArchiveRejected(e))
            &&& is_archive_error(e, archive@, d)
        },
        (Phase::Downloading { received }, BootstrapEvent::Chunk { len }) => if received + len
            <= d.size {
            p == (Phase::Downloading { received: (received + len) as u64 }) && a
                == BootstrapAction::WriteChunk
        } else {
            p == Phase::Failed && a == BootstrapAction::Fail(
                BootstrapError::DownloadTooLarge { expected: d.size },
            )
        },
        (Phase::Downloading { .. }, BootstrapEvent::DownloadFinished { archive }) => if archive_verified(
            archive@,
            d,
        ) {
            p == Phase::Publishing && a == BootstrapAction::Extract
        } else {
            &&& p == Phase::Failed
            &&& a matches BootstrapAction::Fail(BootstrapError::DownloadRejected(e))
            &&& is_archive_error(e, archive@, d)
        },
        (Phase::Publishing, BootstrapEvent::OldTreeRemoved) => p == Phase::Finished && a
            == BootstrapAction::Publish,
        (Phase::Publishing, BootstrapEvent::OldTreeMissing) => p == Phase::Finished && a
            == BootstrapAction::Publish,
        (Phase::Publishing, BootstrapEvent::OldTreeRemovalFailed) => p == Phase::Failed && a
            == BootstrapAction::Fail(BootstrapError::RemoveFailed),
        _ => p == Phase::Failed && a == BootstrapAction::Fail(BootstrapError::UnexpectedEvent),
    }
}

/// Publishing: once the verified tree is staged, the old tree's removal decides
/// the end. A removed old tree is answered as a missing one is, by moving the
/// staged tree into place (`Publish`, phase `Finished`); only a removal that
/// failed stops the bootstrap, with `RemoveFailed`.
pub proof fn lemma_publishing_outcomes(d: Download, p: Phase, a: BootstrapAction, q: Phase, b: BootstrapAction)
    ensures
        bootstrap_step(Phase::Publishing, BootstrapEvent::OldTreeRemoved, d, p, a) <==> (p == Phase::Finished
            && a == BootstrapAction::Publish),
        bootstrap_step(Phase::Publishing, BootstrapEvent::OldTreeMissing, d, p, a) <==> (p == Phase::Finished
            && a == BootstrapAction::Publish),
        bootstrap_step(Phase::Publishing, BootstrapEvent::OldTreeRemoved, d, p, a) && bootstrap_step(
            Phase::Publishing,
            BootstrapEvent::OldTreeMissing,
            d,
            q,
            b,
        ) ==> p == q && a == b,
        bootstrap_step(Phase::Publishing, BootstrapEvent::OldTreeRemovalFailed, d, p, a) <==> (p == Phase::Failed
            && a == BootstrapAction::Fail(BootstrapError::RemoveFailed)),
{
}

/// Downloading: a chunk that keeps the received total within the pinned size
/// is written and counted; one that would pass it stops the bootstrap.
pub proof fn lemma_download_chunks(d: Download, received: u64, len: u64, p: Phase, a: BootstrapAction)
    requires
        bootstrap_step(Phase::Downloading { received }, BootstrapEvent::Chunk { len }, d, p, a),
    ensures
        received + len <= d.size ==> a == BootstrapAction::WriteChunk && p == (Phase::Downloading {
            received: (received + len) as u64,
        }),
        received + len > d.size ==> a == BootstrapAction::Fail(BootstrapError::DownloadTooLarge { expected: d.size })
            && p == Phase::Failed,
{
}

/// `a` stops the bootstrap because an archive failed verification: the cached
/// one where `cached`, the downloaded one otherwise.
pub open spec fn rejects_with(a: BootstrapAction, cached: bool) -> bool {
    match a {
        BootstrapAction::Fail(BootstrapError::CachedArchiveRejected(_)) => cached,
        BootstrapAction::Fail(BootstrapError::DownloadRejected(_)) => !cached,
        _ => false,
    }
}

/// The verification marker names the pinned SHA-256.
pub open spec fn marker_is_current(marker: Option<String>, d: Download) -> bool {
    match marker {
        Some(m) => m@ == d.sha256@,
        None => false,
    }
}

/// Reading the cache and finishing a download: a missing cache starts the
/// download; a cache that cannot be opened stops the bootstrap; a cached
/// archive that does not verify stops it, naming the reason; one that
/// verifies is used as it is where the marker holds the pinned SHA-256 and
/// staged again otherwise; a finished download is extracted where it
/// verifies and stops the bootstrap otherwise. A finished or failed bootstrap
/// takes no further event.
pub proof fn lemma_bootstrap_decisions(phase: Phase, event: BootstrapEvent, d: Download, p: Phase, a: BootstrapAction)
    requires
        bootstrap_step(phase, event, d, p, a),
    ensures
        phase == Phase::AwaitingCache && event is CacheMissing ==> p == (Phase::Downloading { received: 0 }) && a
            == BootstrapAction::StartDownload,
        phase == Phase::AwaitingCache && event is CacheOpenFailed ==> p == Phase::Failed && a == BootstrapAction::Fail(
            BootstrapError::CacheUnreadable,
        ),
        phase == Phase::AwaitingCache ==> (event matches BootstrapEvent::CacheRead { archive, marker } ==> {
            &&& !archive_verified(archive@, d) ==> p == Phase::Failed && rejects_with(a, true)
            &&& archive_verified(archive@, d) && marker_is_current(marker, d) ==> p == Phase::Finished && a
                == BootstrapAction::UseExisting
            &&& archive_verified(archive@, d) && !marker_is_current(marker, d) ==> p == Phase::Publishing && a
                == BootstrapAction::StageCached
        }),
        phase is Downloading ==> (event matches BootstrapEvent::DownloadFinished { archive } ==> {
            &&& archive_verified(archive@, d) ==> p == Phase::Publishing && a == BootstrapAction::Extract
            &&& !archive_verified(archive@, d) ==> p == Phase::Failed && rejects_with(a, false)
        }),
        phase == Phase::Finished || phase == Phase::Failed ==> p == Phase::Failed && a == BootstrapAction::Fail(
            BootstrapError::UnexpectedEvent,
        ),
{
}

/// Verifying an archive checks its size and then its SHA-256 against the
/// pinned ones: it passes exactly where it has the pinned number of bytes and
/// the lowercase hex of its SHA-256 is the pinned text.
pub proof fn lemma_archive_verified(data: Seq<u8>, d: Download)
    ensures
        archive_verified(data, d) <==> data.len() == d.size && hex_lower(sha256(data)) == d.sha256@,
        data.len() != d.size ==> forall|e: ArchiveError| #[trigger] is_archive_error(e, data, d) ==> e == (ArchiveError::SizeMismatch {
            expected_size: d.size,
            actual_size: data.len() as u64,
        }),
{
}

/// A tree that a bootstrap installed is used as it is by the next one: where
/// the cached archive has the pinned size and SHA-256 (as every archive the
/// bootstrap extracts has) and the marker next to the tree holds the pinned
/// SHA-256 (as the bootstrap writes it), a new bootstrap for the same download
/// finishes on reading the cache and downloads nothing.
pub proof fn lemma_installed_tree_is_reused(
    d: Download,
    archive: Vec<u8>,
    marker: String,
    p: Phase,
    a: BootstrapAction,
)
    requires
        archive_verified(archive@, d),
        marker@ == d.sha256@,
        bootstrap_step(Phase::AwaitingCache, BootstrapEvent::CacheRead { archive, marker: Some(marker) }, d, p, a),
    ensures
        p == Phase::Finished,
        a == BootstrapAction::UseExisting,
{
}

/// The bootstrap of the LLVM toolchain for one platform.
pub struct LlvmBootstrap {
    download: Download,
    filename: String,
    phase: Phase,
}

impl LlvmBootstrap {
    #[verifier::type_invariant]
    spec fn inv(self) -> bool {
        self.phase matches Phase::Downloading { received } ==> received <= self.download.size
    }

    pub closed spec fn spec_download(self) -> Download {
        self.download
    }

    pub closed spec fn spec_filename(self) -> Seq<char> {
        self.filename@
    }

    pub closed spec fn spec_phase(self) -> Phase {
        self.phase
    }

    /// Starts the bootstrap for a platform: finds its pinned download and the
    /// archive's file name.
    pub fn new(downloads: &Vec<(String, Download)>, os: &str, arch: &str) -> (r: Result<LlvmBootstrap, BootstrapError>)
        ensures
            match r {
                Ok(b) => {
                    &&& exists|i: int|
                        0 <= i < downloads@.len() && downloads@[i].0@ == llvm_key(os@, arch@)
                            && downloads@[i].1 == b.spec_download() && forall|j: int|
                            0 <= j < i ==> downloads@[j].0@ != llvm_key(os@, arch@)
                    &&& archive_filename(b.spec_download().url@) == Some(b.spec_filename())
                    &&& b.spec_phase() == Phase::AwaitingCache
                },
                Err(BootstrapError::UnsupportedPlatform { os: eo, arch: ea }) => {
                    &&& eo@ == os@ && ea@ == arch@
                    &&& forall|i: int| 0 <= i < downloads@.len() ==> downloads@[i].0@ != llvm_key(os@, arch@)
                },
                Err(e) => exists|i: int|
                    0 <= i < downloads@.len() && downloads@[i].0@ == llvm_key(os@, arch@) && (forall|j: int|
                        0 <= j < i ==> downloads@[j].0@ != llvm_key(os@, arch@)) && archive_filename(
                        downloads@[i].1.url@,
                    ) is None && match url_last_path_segment(downloads@[i].1.url@) {
                        Err(reason) => e matches BootstrapError::InvalidUrl(m) && m@ == reason,
                        Ok(_) => e == BootstrapError::UrlWithoutFilename,
                    },
            },
    {
        let found = llvm_download(downloads, os, arch);
        let d = match found {
            Ok(d) => d,
            Err(e) => return Err(e),
        };
        let download = Download { url: d.url.clone(), size: d.size, sha256: d.sha256.clone() };
        assert(download == *d);
        let filename = match last_path_segment(download.url.as_str()) {
            Err(reason) => return Err(BootstrapError::InvalidUrl(reason)),
            Ok(None) => return Err(BootstrapError::UrlWithoutFilename),
            Ok(Some(name)) => {
                if name.as_str().is_empty() {
                    return Err(BootstrapError::UrlWithoutFilename);
                }
                name
            },
        };
        Ok(LlvmBootstrap { download, filename, phase: Phase::AwaitingCache })
    }

    /// The pinned download.
    pub fn download(&self) -> (d: &Download)
        ensures
            *d == self.spec_download(),
    {
        &self.download
    }

    /// The archive's file name.
    pub fn filename(&self) -> (f: &str)
        ensures
            f@ == self.spec_filename(),
    {
        self.filename.as_str()
    }

    /// The current phase.
    pub fn phase(&self) -> (p: Phase)
        ensures
            p == self.spec_phase(),
    {
        self.phase
    }

    /// Decides, from what the caller observed, the next phase and the next
    /// action. Only archives that have the pinned size and SHA-256 are ever
    /// extracted, and a cached tree is used as it is only where its archive
    /// verifies and its marker names the pinned SHA-256.
    pub fn step(&mut self, event: &BootstrapEvent) -> (a: BootstrapAction)
        ensures
            final(self).spec_download() == old(self).spec_download(),
            final(self).spec_filename() == old(self).spec_filename(),
            bootstrap_step(old(self).spec_phase(), *event, old(self).spec_download(), final(self).spec_phase(), a),
            (a == BootstrapAction::Extract || a == BootstrapAction::StageCached || a
                == BootstrapAction::UseExisting) ==> (*event matches BootstrapEvent::CacheRead { archive, .. }
                && archive_verified(archive@, old(self).spec_download())) || (
            *event matches BootstrapEvent::DownloadFinished { archive } && archive_verified(
                archive@,
                old(self).spec_download(),
            )),
            final(self).spec_phase() matches Phase::Downloading { received } ==> received
                <= final(self).spec_download().size,
    {
        proof {
            use_type_invariant(&*self);
        }
        let phase = self.phase;
        match phase {
            Phase::AwaitingCache => match event {
                BootstrapEvent::CacheMissing => {
                    self.phase = Phase::Downloading { received: 0 };
                    BootstrapAction::StartDownload
                },
                BootstrapEvent::CacheOpenFailed => {
                    self.phase = Phase::Failed;
                    BootstrapAction::Fail(BootstrapError::CacheUnreadable)
                },
                BootstrapEvent::CacheRead { archive, marker } => {
                    match verify_llvm_archive(archive.as_slice(), &self.download) {
                        Err(e) => {
                            self.phase = Phase::Failed;
                            BootstrapAction::Fail(BootstrapError::CachedArchiveRejected(e))
                        },
                        Ok(()) => {
                            let current = match marker {
                                Some(m) => str_equal(m.as_str(), self.download.sha256.as_str()),
                                None => false,
                            };
                            if current {
                                self.phase = Phase::Finished;
                                BootstrapAction::UseExisting
                            } else {
                                self.phase = Phase::Publishing;
                                BootstrapAction::StageCached
                            }
                        },
                    }
                },
                _ => {
                    self.phase = Phase::Failed;
                    BootstrapAction::Fail(BootstrapError::UnexpectedEvent)
                },
            },
            Phase::Downloading { received } => match event {
                BootstrapEvent::Chunk { len } => {
                    if *len <= self.download.size - received {
                        self.phase = Phase::Downloading { received: received + *len };
                        BootstrapAction::WriteChunk
                    } else {
                        self.phase = Phase::Failed;
                        BootstrapAction::Fail(BootstrapError::DownloadTooLarge { expected: self.download.size })
                    }
                },
                BootstrapEvent::DownloadFinished { archive } => {
                    match verify_llvm_archive(archive.as_slice(), &self.download) {
                        Err(e) => {
                            self.phase = Phase::Failed;
                            BootstrapAction::Fail(BootstrapError::DownloadRejected(e))
                        },
                        Ok(()) => {
                            self.phase = Phase::Publishing;
                            BootstrapAction::Extract
                        },
                    }
                },
                _ => {
                    self.phase = Phase::Failed;
                    BootstrapAction::Fail(BootstrapError::UnexpectedEvent)
                },
            },
            Phase::Publishing => match event {
                BootstrapEvent::OldTreeRemoved => {
                    self.phase = Phase::Finished;
                    BootstrapAction::Publish
                },
                BootstrapEvent::OldTreeMissing => {
                    self.phase = Phase::Finished;
                    BootstrapAction::Publish
                },
                BootstrapEvent::OldTreeRemovalFailed => {
                    self.phase = Phase::Failed;
                    BootstrapAction::Fail(BootstrapError::RemoveFailed)
                },
                _ => {
                    self.phase = Phase::Failed;
                    BootstrapAction::Fail(BootstrapError::UnexpectedEvent)
                },
            },
            _ => {
                self.phase = Phase::Failed;
                BootstrapAction::Fail(BootstrapError::UnexpectedEvent)
            },
        }
    }
}

} // verus!
