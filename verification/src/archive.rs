//! The archive formats that the conversions read and write: zstd and gzip
//! compression and tar, delegated to the `zstd`, `flate2` and `tar` crates.
//! Archives travel through the library as bytes; a tar entry is its 512-byte
//! header, its path and its data.

use vstd::prelude::*;
use std::io::Read;

verus! {

/// One entry of a tar archive.
pub struct TarEntry {
    /// The entry's 512-byte header, as the archive holds it.
    pub header: Vec<u8>,
    /// The entry's path; where the archive gives a long name in a record of
    /// its own, the long name.
    pub path: Vec<u8>,
    /// The entry's data.
    pub data: Vec<u8>,
}

impl View for TarEntry {
    type V = (Seq<u8>, Seq<u8>, Seq<u8>);

    open spec fn view(&self) -> (Seq<u8>, Seq<u8>, Seq<u8>) {
        (self.header@, self.path@, self.data@)
    }
}

pub open spec fn entries_view(v: Seq<TarEntry>) -> Seq<(Seq<u8>, Seq<u8>, Seq<u8>)> {
    v.map_values(|e: TarEntry| e@)
}

pub open spec fn opt_bytes_view(o: Option<Vec<u8>>) -> Option<Seq<u8>> {
    match o {
        Some(v) => Some(v@),
        None => None,
    }
}

pub open spec fn opt_entries_view(o: Option<Vec<TarEntry>>) -> Option<Seq<(Seq<u8>, Seq<u8>, Seq<u8>)>> {
    match o {
        Some(v) => Some(entries_view(v@)),
        None => None,
    }
}

/// The (header, data) pairs of entries to write, as values.
pub open spec fn blocks_view(v: Seq<(Vec<u8>, Vec<u8>)>) -> Seq<(Seq<u8>, Seq<u8>)> {
    v.map_values(|b: (Vec<u8>, Vec<u8>)| (b.0@, b.1@))
}

/// Every header of `e` is one 512-byte block.
pub open spec fn headers_are_blocks(e: Seq<(Seq<u8>, Seq<u8>, Seq<u8>)>) -> bool {
    forall|i: int| 0 <= i < e.len() ==> (#[trigger] e[i]).0.len() == 512
}

/// What `zstd::stream::decode_all` gives for the bytes: `None` where it fails.
pub uninterp spec fn zstd_decompressed(data: Seq<u8>) -> Option<Seq<u8>>;

/// What reading the bytes to the end through `flate2::read::GzDecoder` gives:
/// `None` where that fails.
pub uninterp spec fn gzip_decompressed(data: Seq<u8>) -> Option<Seq<u8>>;

/// The entries that `tar::Archive::entries` yields for the bytes, each as its
/// header, path (`path_bytes`) and data: `None` where reading one fails.
pub uninterp spec fn tar_entries_of(data: Seq<u8>) -> Option<Seq<(Seq<u8>, Seq<u8>, Seq<u8>)>>;

/// The header after `tar::Header::set_path` with the path and `set_cksum`:
/// `None` where the path is not UTF-8 or `set_path` refuses it.
pub uninterp spec fn header_with_path(header: Seq<u8>, path: Seq<u8>) -> Option<Seq<u8>>;

/// The header after `tar::Header::set_size` with the size and `set_cksum`.
pub uninterp spec fn header_with_size(header: Seq<u8>, size: nat) -> Seq<u8>;

/// The gzip-compressed (default level) tar archive that `tar::Builder`
/// writes for the (header, data) pairs, one `append` each, then its end
/// blocks: `None` where writing fails.
pub uninterp spec fn tar_gz_of(blocks: Seq<(Seq<u8>, Seq<u8>)>) -> Option<Seq<u8>>;

/// Calls `zstd::stream::decode_all`.
/// Claimed: the result is `zstd_decompressed` of the bytes, a function of them
/// alone; the decompression itself is not stated.
#[verifier::external_body]
pub(crate) fn zstd_decompress(data: &[u8]) -> (r: Option<Vec<u8>>)
    ensures
        opt_bytes_view(r) == zstd_decompressed(data@),
{
    zstd::stream::decode_all(data).ok()
}

/// Reads the bytes to the end through `flate2::read::GzDecoder`.
/// Claimed: the result is `gzip_decompressed` of the bytes, a function of them
/// alone.
#[verifier::external_body]
pub(crate) fn gzip_decompress(data: &[u8]) -> (r: Option<Vec<u8>>)
    ensures
        opt_bytes_view(r) == gzip_decompressed(data@),
{
    let mut out = Vec::new();
    flate2::read::GzDecoder::new(data).read_to_end(&mut out).ok()?;
    Some(out)
}

/// Reads every entry of a tar archive with `tar::Archive::entries`.
/// Claimed: the result is `tar_entries_of` of the bytes, a function of them
/// alone, and every header is one 512-byte block (`Header::as_bytes`).
#[verifier::external_body]
pub(crate) fn tar_entries(data: &[u8]) -> (r: Option<Vec<TarEntry>>)
    ensures
        opt_entries_view(r) == tar_entries_of(data@),
        r matches Some(v) ==> headers_are_blocks(entries_view(v@)),
{
    let mut archive = tar::Archive::new(data);
    let mut out = Vec::new();
    for entry in archive.entries().ok()? {
        let mut entry = entry.ok()?;
        let header = entry.header().as_bytes().to_vec();
        let path = entry.path_bytes().into_owned();
        let mut body = Vec::new();
        entry.read_to_end(&mut body).ok()?;
        out.push(TarEntry { header, path, data: body });
    }
    Some(out)
}

/// Sets the path of a header with `tar::Header::set_path` (the path taken as
/// UTF-8 text), then its checksum.
/// Claimed: the result is `header_with_path` of the two, a function of them
/// alone, and is again one 512-byte block.
#[verifier::external_body]
pub(crate) fn set_header_path(header: &[u8], path: &[u8]) -> (r: Option<Vec<u8>>)
    requires
        header@.len() == 512,
    ensures
        opt_bytes_view(r) == header_with_path(header@, path@),
        r matches Some(h) ==> h@.len() == 512,
{
    let mut h = tar::Header::from_byte_slice(header).clone();
    h.set_path(std::str::from_utf8(path).ok()?).ok()?;
    h.set_cksum();
    Some(h.as_bytes().to_vec())
}

/// Sets the size of a header with `tar::Header::set_size`, then its checksum.
/// Claimed: the result is `header_with_size` of the two, a function of them
/// alone, and is again one 512-byte block.
#[verifier::external_body]
pub(crate) fn set_header_size(header: &[u8], size: u64) -> (r: Vec<u8>)
    requires
        header@.len() == 512,
    ensures
        r@ == header_with_size(header@, size as nat),
        r@.len() == 512,
{
    let mut h = tar::Header::from_byte_slice(header).clone();
    h.set_size(size);
    h.set_cksum();
    h.as_bytes().to_vec()
}

/// Writes a gzip-compressed tar archive with `tar::Builder` over
/// `flate2::write::GzEncoder`.
/// Claimed: the result is `tar_gz_of` of the pairs, a function of them alone.
#[verifier::external_body]
pub(crate) fn build_tar_gz(blocks: &Vec<(Vec<u8>, Vec<u8>)>) -> (r: Option<Vec<u8>>)
    requires
        forall|i: int| 0 <= i < blocks@.len() ==> (#[trigger] blocks@[i]).0@.len() == 512,
    ensures
        opt_bytes_view(r) == tar_gz_of(blocks_view(blocks@)),
{
    let gz = flate2::write::GzEncoder::new(Vec::new(), flate2::Compression::default());
    let mut builder = tar::Builder::new(gz);
    for (header, data) in blocks.iter() {
        builder.append(tar::Header::from_byte_slice(header), data.as_slice()).ok()?;
    }
    builder.into_inner().ok()?.finish().ok()
}

} // verus!
